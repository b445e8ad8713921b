//! Transitions between compiled visual layers: which layers a transition
//! joins, how each joined layer's stream is split so that every transition
//! gets a copy of it, and the layers the compiled transitions add.
use vstd::prelude::*;

use crate::compiler::filters::{
    copy_opt_transition, copy_transition, opt_transition_view, spec_target_delay, target_delay_from_output,
    transition_label_text, transition_output_label, transition_view, LayerDimensions, LayerPlacement,
    RenderTransitionIntent, VisualLayerFilter,
};
use crate::compiler::job::RenderIntentSupport;
use crate::engine::model::TargetTimerange;
use crate::text::{append_str, append_string, clone_strings, decimal, lit, str_eq, strings_view, u64_to_decimal};

verus! {

/// A transition between two compiled layers, ready to be compiled: the
/// layers it joins, the labels of the copies of their streams it reads,
/// the label it writes, where and when it shows, and its offset into the
/// output.
#[derive(Debug, Clone)]
pub struct TransitionFilterSpec {
    pub from_index: usize,
    pub to_index: usize,
    pub from_transition_label: String,
    pub to_transition_label: String,
    pub output_label: String,
    pub transition: RenderTransitionIntent,
    pub offset: u64,
    pub dimensions: LayerDimensions,
    pub placement: LayerPlacement,
    pub active_start: u64,
    pub active_end: u64,
}

/// The first of the first `n` layers that draws segment `id`.
pub open spec fn position_of(layers: Seq<VisualLayerFilter>, id: Seq<char>, n: int) -> Option<int>
    decreases n,
{
    if n <= 0 {
        None
    } else {
        let prev = position_of(layers, id, n - 1);
        if prev is Some {
            prev
        } else if layers[n - 1].segment_id@ == id {
            Some(n - 1)
        } else {
            None
        }
    }
}

/// The two layers a layer's transition joins: it needs a supported
/// transition whose two segments are drawn by two different layers.
pub open spec fn transition_endpoints(layer: VisualLayerFilter, layers: Seq<VisualLayerFilter>) -> Option<(int, int)> {
    match layer.transition {
        Some(t) => if t.support == RenderIntentSupport::Supported {
            let f = position_of(layers, t.from_segment_id@, layers.len() as int);
            let g = position_of(layers, t.to_segment_id@, layers.len() as int);
            if f is Some && g is Some && f->Some_0 != g->Some_0 {
                Some((f->Some_0, g->Some_0))
            } else {
                None
            }
        } else {
            None
        },
        None => None,
    }
}

/// The first `n` layers that start a transition, in order.
pub open spec fn transition_sources(layers: Seq<VisualLayerFilter>, n: int) -> Seq<int>
    decreases n,
{
    if n <= 0 {
        Seq::empty()
    } else {
        transition_sources(layers, n - 1)
            + (if transition_endpoints(layers[n - 1], layers) is Some { seq![n - 1] } else { Seq::empty() })
    }
}

/// A transition spec drawn from `layer`: its endpoints, its transition,
/// its output label, its offset, the size and place of the layer it starts
/// from, and its window inside the output; the copy labels not yet given.
pub open spec fn spec_from_layer(
    s: TransitionFilterSpec,
    layer: VisualLayerFilter,
    layers: Seq<VisualLayerFilter>,
    output: TargetTimerange,
) -> bool {
    let e = transition_endpoints(layer, layers);
    let t = layer.transition->Some_0;
    let start = spec_target_delay(t.window, output);
    &&& e is Some
    &&& s.from_index == e->Some_0.0 && s.to_index == e->Some_0.1
    &&& transition_view(s.transition) == transition_view(t)
    &&& s.output_label@ == transition_label_text(t.from_segment_id@, t.to_segment_id@)
    &&& s.offset == (if t.window.start >= output.start { t.window.start - output.start } else { 0 })
    &&& s.dimensions == layers[s.from_index as int].dimensions
    &&& s.placement == layers[s.from_index as int].placement
    &&& s.active_start == start
    &&& s.active_end == (if start + t.window.duration > u64::MAX { u64::MAX as int } else { start + t.window.duration })
}

/// The first layer drawing segment `id`.
fn segment_position(layers: &Vec<VisualLayerFilter>, id: &str) -> (r: Option<usize>)
    ensures
        match r {
            Some(i) => position_of(layers@, id@, layers@.len() as int) == Some(i as int) && i < layers@.len(),
            None => position_of(layers@, id@, layers@.len() as int) is None,
        },
{
    let mut i: usize = 0;
    while i < layers.len()
        invariant
            i <= layers@.len(),
            position_of(layers@, id@, i as int) is None,
        decreases layers@.len() - i,
    {
        if str_eq(layers[i].segment_id.as_str(), id) {
            proof {
                lemma_position_stays(layers@, id@, i + 1, layers@.len() as int);
            }
            return Some(i);
        }
        i = i + 1;
    }
    None
}

/// Once found, the first position stays the same in longer prefixes.
proof fn lemma_position_stays(layers: Seq<VisualLayerFilter>, id: Seq<char>, i: int, n: int)
    requires
        0 <= i <= n,
        position_of(layers, id, i) is Some,
    ensures
        position_of(layers, id, n) == position_of(layers, id, i),
    decreases n - i,
{
    if n > i {
        lemma_position_stays(layers, id, i, n - 1);
    }
}

/// The transition a layer starts, if it joins two different layers.
pub fn layer_transition_spec(
    layer: &VisualLayerFilter,
    visual_layers: &Vec<VisualLayerFilter>,
    output: &TargetTimerange,
) -> (r: Option<TransitionFilterSpec>)
    ensures
        match r {
            Some(s) => spec_from_layer(s, *layer, visual_layers@, *output) && s.from_transition_label@.len() == 0
                && s.to_transition_label@.len() == 0,
            None => transition_endpoints(*layer, visual_layers@) is None,
        },
{
    let transition = match &layer.transition {
        Some(t) => t,
        None => return None,
    };
    if transition.support != RenderIntentSupport::Supported {
        return None;
    }
    let from_index = match segment_position(visual_layers, transition.from_segment_id.as_str()) {
        Some(i) => i,
        None => return None,
    };
    let to_index = match segment_position(visual_layers, transition.to_segment_id.as_str()) {
        Some(i) => i,
        None => return None,
    };
    if from_index == to_index {
        return None;
    }
    let active_start = target_delay_from_output(&transition.window, output);
    let active_end = active_start.saturating_add(transition.window.duration);
    let offset = transition.window.start.saturating_sub(output.start);
    let from_layer = &visual_layers[from_index];
    Some(TransitionFilterSpec {
        from_index,
        to_index,
        from_transition_label: String::new(),
        to_transition_label: String::new(),
        output_label: transition_output_label(transition),
        transition: copy_transition(transition),
        offset,
        dimensions: from_layer.dimensions,
        placement: from_layer.placement,
        active_start,
        active_end,
    })
}

/// The transitions the layers start, in layer order.
pub fn transition_specs(visual_layers: &Vec<VisualLayerFilter>, output: &TargetTimerange) -> (r: Vec<TransitionFilterSpec>)
    ensures
        r@.len() == transition_sources(visual_layers@, visual_layers@.len() as int).len(),
        forall|k: int| 0 <= k < r@.len() ==> {
            let src = transition_sources(visual_layers@, visual_layers@.len() as int)[k];
            &&& 0 <= src < visual_layers@.len()
            &&& spec_from_layer(#[trigger] r@[k], visual_layers@[src], visual_layers@, *output)
            &&& r@[k].from_transition_label@.len() == 0
            &&& r@[k].to_transition_label@.len() == 0
        },
{
    let ghost ls = visual_layers@;
    let mut specs: Vec<TransitionFilterSpec> = Vec::new();
    let mut i: usize = 0;
    while i < visual_layers.len()
        invariant
            ls == visual_layers@,
            i <= ls.len(),
            specs@.len() == transition_sources(ls, i as int).len(),
            forall|q: int| 0 <= q < transition_sources(ls, i as int).len() ==> 0 <= #[trigger] transition_sources(ls, i as int)[q] < i,
            forall|k: int| 0 <= k < specs@.len() ==> {
                let src = transition_sources(ls, i as int)[k];
                &&& spec_from_layer(#[trigger] specs@[k], ls[src], ls, *output)
                &&& specs@[k].from_transition_label@.len() == 0
                &&& specs@[k].to_transition_label@.len() == 0
            },
        decreases ls.len() - i,
    {
        let ghost prev = transition_sources(ls, i as int);
        match layer_transition_spec(&visual_layers[i], visual_layers, output) {
            Some(s) => {
                specs.push(s);
                proof {
                    assert(transition_sources(ls, i + 1) =~= prev.push(i as int));
                }
            },
            None => {
                proof {
                    assert(transition_sources(ls, i + 1) =~= prev);
                }
            },
        }
        i = i + 1;
    }
    specs
}

/// How many of the first `k` transitions use layer `j`, as either end.
pub open spec fn uses_count(specs: Seq<TransitionFilterSpec>, j: int, k: int) -> nat
    decreases k,
{
    if k <= 0 {
        0
    } else {
        uses_count(specs, j, k - 1) + (if specs[k - 1].from_index == j { 1nat } else { 0nat })
            + (if specs[k - 1].to_index == j { 1nat } else { 0nat })
    }
}

/// `{label}transition{k}`: the `k`-th copy of a layer's stream.
pub open spec fn copy_label_text(label: Seq<char>, k: nat) -> Seq<char> {
    label + "transition"@ + decimal(k)
}

/// `[{label}transition0]...` for the first `u` copies.
pub open spec fn copy_labels_text(label: Seq<char>, u: nat) -> Seq<char>
    decreases u,
{
    if u == 0 {
        Seq::empty()
    } else {
        copy_labels_text(label, (u - 1) as nat) + "["@ + copy_label_text(label, (u - 1) as nat) + "]"@
    }
}

/// The line splitting a layer's stream into its main copy and `u`
/// transition copies.
pub open spec fn split_line_text(label: Seq<char>, u: nat) -> Seq<char> {
    "["@ + label + "]split="@ + decimal(u + 1) + "["@ + label + "main]"@ + copy_labels_text(label, u)
}

/// The split lines of the first `m` layers, for the layers a transition
/// uses.
pub open spec fn split_lines(layers: Seq<VisualLayerFilter>, specs: Seq<TransitionFilterSpec>, m: int) -> Seq<Seq<char>>
    decreases m,
{
    if m <= 0 {
        Seq::empty()
    } else {
        let u = uses_count(specs, m - 1, specs.len() as int);
        split_lines(layers, specs, m - 1) + (if u > 0 { seq![split_line_text(layers[m - 1].label@, u)] } else { Seq::empty() })
    }
}

/// A transition spec apart from its copy labels.
pub open spec fn spec_core(s: TransitionFilterSpec) -> (usize, usize, Seq<char>, (Seq<char>, Seq<char>, RenderIntentSupport, TargetTimerange), u64, LayerDimensions, LayerPlacement, u64, u64) {
    (s.from_index, s.to_index, s.output_label@, transition_view(s.transition), s.offset, s.dimensions, s.placement,
        s.active_start, s.active_end)
}

/// A compiled layer apart from its label.
pub open spec fn layer_core(v: VisualLayerFilter) -> (Seq<char>, Option<(Seq<char>, Seq<char>, RenderIntentSupport, TargetTimerange)>, LayerDimensions, LayerPlacement, u64, u64, Seq<Seq<char>>) {
    (v.segment_id@, opt_transition_view(v.transition), v.dimensions, v.placement, v.active_start, v.active_end,
        strings_view(v.lines@))
}

/// Transitions whose ends are two different existing layers.
pub open spec fn specs_fit_layers(specs: Seq<TransitionFilterSpec>, n: int) -> bool {
    forall|k: int| 0 <= k < specs.len() ==> #[trigger] specs[k].from_index < n && specs[k].to_index < n
        && specs[k].from_index != specs[k].to_index
}

/// How many of the first `k` transitions use layer `j`.
fn count_uses(specs: &Vec<TransitionFilterSpec>, j: usize, k: usize) -> (r: u64)
    requires
        k <= specs@.len(),
        specs@.len() <= 0x3fff_ffff_ffff_ffff,
    ensures
        r == uses_count(specs@, j as int, k as int),
{
    let mut count: u64 = 0;
    let mut i: usize = 0;
    while i < k
        invariant
            k <= specs@.len(),
            specs@.len() <= 0x3fff_ffff_ffff_ffff,
            i <= k,
            count == uses_count(specs@, j as int, i as int),
            count <= 2 * i,
        decreases k - i,
    {
        if specs[i].from_index == j {
            count = count + 1;
        }
        if specs[i].to_index == j {
            count = count + 1;
        }
        i = i + 1;
    }
    count
}

/// `{label}transition{k}`.
fn copy_label(label: &String, k: u64) -> (r: String)
    ensures
        r@ == copy_label_text(label@, k as nat),
{
    let mut r = label.clone();
    append_str(&mut r, "transition");
    let n = u64_to_decimal(k);
    append_string(&mut r, &n);
    r
}

/// The line splitting the stream `label` into its main copy and `u`
/// transition copies.
fn split_line(label: &String, u: u64) -> (r: String)
    requires
        u < u64::MAX,
    ensures
        r@ == split_line_text(label@, u as nat),
{
    let mut r = lit("[");
    append_string(&mut r, label);
    append_str(&mut r, "]split=");
    let n = u64_to_decimal(u + 1);
    append_string(&mut r, &n);
    append_str(&mut r, "[");
    append_string(&mut r, label);
    append_str(&mut r, "main]");
    let ghost head = r@;
    let mut k: u64 = 0;
    while k < u
        invariant
            k <= u,
            r@ == head + copy_labels_text(label@, k as nat),
        decreases u - k,
    {
        append_str(&mut r, "[");
        let c = copy_label(label, k);
        append_string(&mut r, &c);
        append_str(&mut r, "]");
        proof {
            assert(r@ =~= head + copy_labels_text(label@, (k + 1) as nat));
        }
        k = k + 1;
    }
    proof {
        assert(r@ =~= split_line_text(label@, u as nat));
    }
    r
}

/// A copy of a compiled layer under another label.
fn relabeled(v: &VisualLayerFilter, label: String) -> (r: VisualLayerFilter)
    ensures
        layer_core(r) == layer_core(*v),
        r.label@ == label@,
{
    VisualLayerFilter {
        segment_id: v.segment_id.clone(),
        label,
        transition: copy_opt_transition(&v.transition),
        dimensions: v.dimensions,
        placement: v.placement,
        active_start: v.active_start,
        active_end: v.active_end,
        lines: clone_strings(&v.lines),
    }
}

/// Gives each transition the copies of its two layers' streams it reads:
/// every layer a transition uses is split into a main copy, which the
/// layer keeps under `{label}main`, and one copy per use, numbered in
/// the order of the transitions. Returns the transitions with their copy
/// labels.
pub fn split_transition_layers(
    lines: &mut Vec<String>,
    visual_layers: &mut Vec<VisualLayerFilter>,
    specs: &Vec<TransitionFilterSpec>,
) -> (r: Vec<TransitionFilterSpec>)
    requires
        specs_fit_layers(specs@, old(visual_layers)@.len() as int),
        specs@.len() <= 0x3fff_ffff_ffff_ffff,
    ensures
        r@.len() == specs@.len(),
        forall|k: int| 0 <= k < specs@.len() ==> {
            &&& spec_core(#[trigger] r@[k]) == spec_core(specs@[k])
            &&& r@[k].from_transition_label@ == copy_label_text(old(visual_layers)@[specs@[k].from_index as int].label@,
                uses_count(specs@, specs@[k].from_index as int, k))
            &&& r@[k].to_transition_label@ == copy_label_text(old(visual_layers)@[specs@[k].to_index as int].label@,
                uses_count(specs@, specs@[k].to_index as int, k))
        },
        strings_view(final(lines)@) == strings_view(old(lines)@)
            + split_lines(old(visual_layers)@, specs@, old(visual_layers)@.len() as int),
        final(visual_layers)@.len() == old(visual_layers)@.len(),
        forall|j: int| 0 <= j < old(visual_layers)@.len() ==> {
            &&& layer_core(#[trigger] final(visual_layers)@[j]) == layer_core(old(visual_layers)@[j])
            &&& final(visual_layers)@[j].label@ == if uses_count(specs@, j, specs@.len() as int) > 0 {
                old(visual_layers)@[j].label@ + "main"@
            } else {
                old(visual_layers)@[j].label@
            }
        },
{
    let ghost ls = visual_layers@;
    let ghost sp = specs@;
    let n = specs.len();
    // The copy labels, from the layers' own labels.
    let mut labeled: Vec<TransitionFilterSpec> = Vec::new();
    let mut k: usize = 0;
    while k < n
        invariant
            ls == visual_layers@,
            sp == specs@,
            n == sp.len(),
            specs_fit_layers(sp, ls.len() as int),
            sp.len() <= 0x3fff_ffff_ffff_ffff,
            k <= n,
            labeled@.len() == k,
            forall|q: int| 0 <= q < k ==> {
                &&& spec_core(#[trigger] labeled@[q]) == spec_core(sp[q])
                &&& labeled@[q].from_transition_label@ == copy_label_text(ls[sp[q].from_index as int].label@,
                    uses_count(sp, sp[q].from_index as int, q))
                &&& labeled@[q].to_transition_label@ == copy_label_text(ls[sp[q].to_index as int].label@,
                    uses_count(sp, sp[q].to_index as int, q))
            },
        decreases n - k,
    {
        let s = &specs[k];
        proof {
            assert(sp[k as int].from_index < ls.len() && sp[k as int].to_index < ls.len());
        }
        let from_uses = count_uses(specs, s.from_index, k);
        let to_uses = count_uses(specs, s.to_index, k);
        let from_label = copy_label(&visual_layers[s.from_index].label, from_uses);
        let to_label = copy_label(&visual_layers[s.to_index].label, to_uses);
        labeled.push(TransitionFilterSpec {
            from_index: s.from_index,
            to_index: s.to_index,
            from_transition_label: from_label,
            to_transition_label: to_label,
            output_label: s.output_label.clone(),
            transition: copy_transition(&s.transition),
            offset: s.offset,
            dimensions: s.dimensions,
            placement: s.placement,
            active_start: s.active_start,
            active_end: s.active_end,
        });
        k = k + 1;
    }
    // The split lines, and each used layer keeps its main copy.
    let ghost start = strings_view(lines@);
    let mut relabeled_layers: Vec<VisualLayerFilter> = Vec::new();
    let mut j: usize = 0;
    while j < visual_layers.len()
        invariant
            ls == visual_layers@,
            sp == specs@,
            n == sp.len(),
            sp.len() <= 0x3fff_ffff_ffff_ffff,
            j <= ls.len(),
            relabeled_layers@.len() == j,
            strings_view(lines@) == start + split_lines(ls, sp, j as int),
            forall|q: int| 0 <= q < j ==> {
                &&& layer_core(#[trigger] relabeled_layers@[q]) == layer_core(ls[q])
                &&& relabeled_layers@[q].label@ == if uses_count(sp, q, sp.len() as int) > 0 {
                    ls[q].label@ + "main"@
                } else {
                    ls[q].label@
                }
            },
        decreases ls.len() - j,
    {
        let u = count_uses(specs, j, n);
        let layer = &visual_layers[j];
        let ghost before = strings_view(lines@);
        if u > 0 {
            proof {
                lemma_uses_bounded(sp, j as int, sp.len() as int);
            }
            let line = split_line(&layer.label, u);
            lines.push(line);
            let mut main = layer.label.clone();
            append_str(&mut main, "main");
            relabeled_layers.push(relabeled(layer, main));
            proof {
                assert(strings_view(lines@) =~= before.push(split_line_text(ls[j as int].label@, u as nat)));
            }
        } else {
            relabeled_layers.push(relabeled(layer, layer.label.clone()));
        }
        proof {
            assert(split_lines(ls, sp, j + 1) =~= split_lines(ls, sp, j as int)
                + (if u > 0 { seq![split_line_text(ls[j as int].label@, u as nat)] } else { Seq::<Seq<char>>::empty() }));
        }
        j = j + 1;
    }
    *visual_layers = relabeled_layers;
    labeled
}

/// A layer's uses number at most two per transition.
proof fn lemma_uses_bounded(specs: Seq<TransitionFilterSpec>, j: int, k: int)
    requires
        k >= 0,
    ensures
        uses_count(specs, j, k) <= 2 * k,
    decreases k,
{
    if k > 0 {
        lemma_uses_bounded(specs, j, k - 1);
    }
}

/// The transitions, among the first `n`, whose filter compiled.
pub open spec fn compiled_transitions(filters: Seq<Option<String>>, n: int) -> Seq<int>
    decreases n,
{
    if n <= 0 {
        Seq::empty()
    } else {
        compiled_transitions(filters, n - 1) + (if filters[n - 1] is Some { seq![n - 1] } else { Seq::empty() })
    }
}

/// The layer a compiled transition adds: it draws the transition's output
/// where and when the transition shows, and starts no transition itself.
pub open spec fn transition_layer(v: VisualLayerFilter, s: TransitionFilterSpec) -> bool {
    &&& v.segment_id@ == s.transition.from_segment_id@
    &&& v.label@ == s.output_label@
    &&& v.transition is None
    &&& v.dimensions == s.dimensions
    &&& v.placement == s.placement
    &&& v.active_start == s.active_start
    &&& v.active_end == s.active_end
    &&& v.lines@.len() == 0
}

/// Adds the compiled transitions: for each transition whose filter
/// compiled, its filter line and a layer drawing its output.
pub fn append_transition_outputs(
    lines: &mut Vec<String>,
    visual_layers: &mut Vec<VisualLayerFilter>,
    specs: &Vec<TransitionFilterSpec>,
    filters: &Vec<Option<String>>,
)
    requires
        filters@.len() == specs@.len(),
    ensures
        strings_view(final(lines)@) == strings_view(old(lines)@) + Seq::new(
            compiled_transitions(filters@, filters@.len() as int).len(),
            |q: int| filters@[compiled_transitions(filters@, filters@.len() as int)[q]]->Some_0@,
        ),
        final(visual_layers)@.len() == old(visual_layers)@.len() + compiled_transitions(filters@, filters@.len() as int).len(),
        final(visual_layers)@.subrange(0, old(visual_layers)@.len() as int) == old(visual_layers)@,
        forall|q: int| 0 <= q < compiled_transitions(filters@, filters@.len() as int).len() ==> {
            let k = compiled_transitions(filters@, filters@.len() as int)[q];
            &&& 0 <= k < specs@.len()
            &&& transition_layer(#[trigger] final(visual_layers)@[old(visual_layers)@.len() + q], specs@[k])
        },
{
    let ghost start_lines = strings_view(lines@);
    let ghost start_layers = visual_layers@;
    let ghost fs = filters@;
    let mut k: usize = 0;
    while k < filters.len()
        invariant
            fs == filters@,
            fs.len() == specs@.len(),
            k <= fs.len(),
            forall|q: int| 0 <= q < compiled_transitions(fs, k as int).len() ==> 0 <= #[trigger] compiled_transitions(fs, k as int)[q] < k,
            strings_view(lines@) == start_lines + Seq::new(compiled_transitions(fs, k as int).len(),
                |q: int| fs[compiled_transitions(fs, k as int)[q]]->Some_0@),
            visual_layers@.len() == start_layers.len() + compiled_transitions(fs, k as int).len(),
            visual_layers@.subrange(0, start_layers.len() as int) == start_layers,
            forall|q: int| 0 <= q < compiled_transitions(fs, k as int).len() ==>
                transition_layer(#[trigger] visual_layers@[start_layers.len() + q], specs@[compiled_transitions(fs, k as int)[q]]),
        decreases fs.len() - k,
    {
        let ghost prev = compiled_transitions(fs, k as int);
        let ghost before_lines = strings_view(lines@);
        let ghost before_layers = visual_layers@;
        match &filters[k] {
            Some(f) => {
                let s = &specs[k];
                lines.push(f.clone());
                visual_layers.push(VisualLayerFilter {
                    segment_id: s.transition.from_segment_id.clone(),
                    label: s.output_label.clone(),
                    transition: None,
                    dimensions: s.dimensions,
                    placement: s.placement,
                    active_start: s.active_start,
                    active_end: s.active_end,
                    lines: Vec::new(),
                });
                proof {
                    let now = compiled_transitions(fs, k + 1);
                    assert(now =~= prev.push(k as int));
                    assert(strings_view(lines@) =~= before_lines.push(fs[k as int]->Some_0@));
                    assert(strings_view(lines@) =~= start_lines + Seq::new(now.len(), |q: int| fs[now[q]]->Some_0@));
                    assert(visual_layers@.subrange(0, start_layers.len() as int) =~= before_layers.subrange(0, start_layers.len() as int));
                    assert forall|q: int| 0 <= q < now.len() implies
                        transition_layer(#[trigger] visual_layers@[start_layers.len() + q], specs@[now[q]]) by {
                        if q < prev.len() {
                            assert(visual_layers@[start_layers.len() + q] == before_layers[start_layers.len() + q]);
                        }
                    }
                }
            },
            None => {
                proof {
                    assert(compiled_transitions(fs, k + 1) =~= prev);
                }
            },
        }
        k = k + 1;
    }
}

/// The layer at one end of a transition: its start when `from_end`, else
/// its end.
pub open spec fn end_layer(s: TransitionFilterSpec, from_end: bool) -> int {
    if from_end { s.from_index as int } else { s.to_index as int }
}

/// A layer's uses only grow as transitions are added.
proof fn lemma_uses_monotone(specs: Seq<TransitionFilterSpec>, j: int, a: int, b: int)
    requires
        0 <= a <= b,
    ensures
        uses_count(specs, j, a) <= uses_count(specs, j, b),
    decreases b - a,
{
    if b > a {
        lemma_uses_monotone(specs, j, a, b - 1);
    }
}

/// The copies of a layer's stream that transitions read are all produced
/// by its split, and no two transition ends read the same copy: the end of
/// transition `k` on layer `j` reads copy `uses_count(specs, j, k)`.
pub proof fn law_transition_copies_are_split_and_unshared(
    specs: Seq<TransitionFilterSpec>,
    k1: int,
    from1: bool,
    k2: int,
    from2: bool,
)
    requires
        forall|k: int| 0 <= k < specs.len() ==> #[trigger] specs[k].from_index != specs[k].to_index,
        0 <= k1 < specs.len(),
        0 <= k2 < specs.len(),
        k1 != k2 || from1 != from2,
        end_layer(specs[k1], from1) == end_layer(specs[k2], from2),
    ensures
        uses_count(specs, end_layer(specs[k1], from1), k1) < uses_count(specs, end_layer(specs[k1], from1), specs.len() as int),
        uses_count(specs, end_layer(specs[k1], from1), k1) != uses_count(specs, end_layer(specs[k2], from2), k2),
{
    let j = end_layer(specs[k1], from1);
    assert(specs[k1].from_index != specs[k1].to_index);
    assert(uses_count(specs, j, k1 + 1) >= uses_count(specs, j, k1) + 1);
    lemma_uses_monotone(specs, j, k1 + 1, specs.len() as int);
    if k1 < k2 {
        lemma_uses_monotone(specs, j, k1 + 1, k2);
    } else if k2 < k1 {
        assert(specs[k2].from_index != specs[k2].to_index);
        assert(uses_count(specs, j, k2 + 1) >= uses_count(specs, j, k2) + 1);
        lemma_uses_monotone(specs, j, k2 + 1, k1);
    } else {
        assert(specs[k1].from_index != specs[k1].to_index);
    }
}

} // verus!
