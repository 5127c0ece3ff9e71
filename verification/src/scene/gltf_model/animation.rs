//! Animation clip lookup and the choice of which channels a clip keeps.
use vstd::prelude::*;
use super::NodeIndex;
use super::hierarchy::SceneGraph;

verus! {

/// Position of the first clip named `clip_name` among `animation_names`.
pub fn find_animation(animation_names: &Vec<String>, clip_name: &str) -> (r: Option<usize>)
    ensures
        match r {
            Some(i) => i < animation_names@.len() && animation_names@[i as int]@ == clip_name@
                && forall|j: int| 0 <= j < i ==> (#[trigger] animation_names@[j])@ != clip_name@,
            None => forall|j: int|
                0 <= j < animation_names@.len() ==> (#[trigger] animation_names@[j])@ != clip_name@,
        },
{
    let wanted = clip_name.to_owned();
    let mut i: usize = 0;
    while i < animation_names.len()
        invariant
            i <= animation_names@.len(),
            wanted@ == clip_name@,
            forall|j: int| 0 <= j < i ==> (#[trigger] animation_names@[j])@ != clip_name@,
        decreases animation_names@.len() - i,
    {
        if animation_names[i].eq(&wanted) {
            return Some(i);
        }
        i += 1;
    }
    None
}

/// The kind of keyframe values an animation channel outputs.
#[derive(Debug, PartialEq, Eq, Structural, Copy, Clone)]
pub enum ChannelOutput {
    Translations,
    Rotations,
    Scales,
    MorphTargetWeights,
}

/// What becomes of one animation channel.
#[derive(Debug, PartialEq, Eq, Structural, Copy, Clone)]
pub struct ChannelChoice {
    /// Whether the channel's keyframe times count toward the clip's duration.
    pub extends_duration: bool,
    /// The flattened node the channel animates, when the channel is kept.
    pub target: Option<NodeIndex>,
}

/// The choice for a channel targeting document node `target`, with or
/// without keyframe times, and with the given outputs: a channel whose
/// target is not in the scene is skipped; one without times is skipped; its
/// times count toward the duration from then on; a channel without outputs,
/// or whose outputs are morph-target weights, is skipped.
pub open spec fn spec_channel_choice(
    to_local: Map<usize, NodeIndex>,
    target: usize,
    has_times: bool,
    output: Option<ChannelOutput>,
) -> ChannelChoice {
    if !to_local.contains_key(target) || !has_times {
        ChannelChoice { extends_duration: false, target: None }
    } else {
        ChannelChoice {
            extends_duration: true,
            target: match output {
                Some(ChannelOutput::MorphTargetWeights) | None => None,
                Some(_) => Some(to_local[target]),
            },
        }
    }
}

/// A channel whose target node is in the scene and which has keyframe times
/// is kept, animating that node, exactly when its outputs are translations,
/// rotations or scales; its times count toward the duration either way. A
/// channel whose target is not in the scene, or which has no times, is
/// dropped and does not count.
pub proof fn transform_channels_are_kept(
    to_local: Map<usize, NodeIndex>,
    target: usize,
    has_times: bool,
    output: Option<ChannelOutput>,
)
    ensures
        to_local.contains_key(target) && has_times ==> spec_channel_choice(
            to_local,
            target,
            has_times,
            output,
        ).extends_duration,
        to_local.contains_key(target) && has_times && (output == Some(ChannelOutput::Translations)
            || output == Some(ChannelOutput::Rotations) || output == Some(ChannelOutput::Scales))
            ==> spec_channel_choice(to_local, target, has_times, output).target == Some(to_local[target]),
        (output is None || output == Some(ChannelOutput::MorphTargetWeights)) ==> spec_channel_choice(
            to_local,
            target,
            has_times,
            output,
        ).target is None,
        !(to_local.contains_key(target) && has_times) ==> spec_channel_choice(
            to_local,
            target,
            has_times,
            output,
        ) == (ChannelChoice { extends_duration: false, target: None }),
{
}

/// Decides what becomes of an animation channel that targets document node
/// `target` in the scene `g`.
pub fn choose_channel(
    g: &SceneGraph,
    target: usize,
    has_times: bool,
    output: Option<ChannelOutput>,
) -> (c: ChannelChoice)
    ensures
        c == spec_channel_choice(g.gltf_to_local@, target, has_times, output),
{
    let local = match g.local_index(target) {
        Some(p) => p,
        None => {
            return ChannelChoice { extends_duration: false, target: None };
        },
    };
    if !has_times {
        return ChannelChoice { extends_duration: false, target: None };
    }
    let kept = match output {
        Some(ChannelOutput::MorphTargetWeights) | None => None,
        Some(_) => Some(local),
    };
    ChannelChoice { extends_duration: true, target: kept }
}

} // verus!
