use bedrock::texture_animation::{
    expand_animation, parse_mcmeta, strip_frame_count, AnimationMeta, AnimationStep, FrameEntry,
};

fn meta(frametime: Option<u64>, frames: Option<Vec<FrameEntry>>) -> AnimationMeta {
    AnimationMeta { frametime, interpolate: None, frames }
}

#[test]
fn plays_straight_through_without_a_frames_list() {
    let anim = parse_mcmeta(br#"{"animation":{}}"#, 4).unwrap();
    assert_eq!(
        anim.steps,
        vec![
            AnimationStep { index: 0, ticks: 1 },
            AnimationStep { index: 1, ticks: 1 },
            AnimationStep { index: 2, ticks: 1 },
            AnimationStep { index: 3, ticks: 1 },
        ]
    );
    assert_eq!(anim.total_ticks(), 4);
}

#[test]
fn frametime_applies_to_every_step() {
    let anim = parse_mcmeta(br#"{"animation":{"frametime":3}}"#, 2).unwrap();
    assert!(anim.steps.iter().all(|s| s.ticks == 3));
    assert_eq!(anim.total_ticks(), 6);
}

#[test]
fn per_frame_time_overrides_frametime() {
    // Magma and prismarine hold single frames far longer than the rest.
    let anim = parse_mcmeta(
        br#"{"animation":{"frametime":2,"frames":[0,{"index":1,"time":10}]}}"#,
        2,
    )
    .unwrap();
    assert_eq!(
        anim.steps,
        vec![
            AnimationStep { index: 0, ticks: 2 },
            AnimationStep {
                index: 1,
                ticks: 10
            },
        ]
    );
}

#[test]
fn an_explicit_order_is_kept_verbatim() {
    // Some textures ping-pong rather than looping, and repeat rows.
    let anim = parse_mcmeta(br#"{"animation":{"frames":[0,1,2,1]}}"#, 3).unwrap();
    let order: Vec<u32> = anim.steps.iter().map(|s| s.index).collect();
    assert_eq!(order, vec![0, 1, 2, 1]);
}

#[test]
fn rows_past_the_end_of_the_strip_are_dropped() {
    let anim = parse_mcmeta(br#"{"animation":{"frames":[0,9]}}"#, 2).unwrap();
    assert_eq!(anim.steps.len(), 1);
}

#[test]
fn a_sidecar_without_an_animation_block_is_not_animated() {
    assert!(parse_mcmeta(br#"{"gui":{"scaling":{}}}"#, 4).is_none());
}

#[test]
fn a_square_texture_is_never_a_strip() {
    assert_eq!(strip_frame_count(16, 16), None);
    assert_eq!(strip_frame_count(16, 512), Some(32));
    // Odd sizes are some other kind of atlas, not a flipbook.
    assert_eq!(strip_frame_count(16, 24), None);
}

#[test]
fn zero_durations_fall_back_and_single_frames_do_not_animate() {
    let frames = vec![
        FrameEntry::Object { index: Some(1), time: Some(0) },
        FrameEntry::Object { index: None, time: Some(5) },
        FrameEntry::Number(None),
        FrameEntry::Other,
    ];
    let m = AnimationMeta { frametime: Some(0), interpolate: Some(true), frames: Some(frames) };
    let anim = expand_animation(Some(&m), 2).unwrap();
    assert!(anim.interpolate);
    assert_eq!(anim.frame_count, 2);
    assert_eq!(anim.steps, vec![AnimationStep { index: 1, ticks: 1 }]);
    assert!(expand_animation(Some(&m), 1).is_none());
    let nothing_left = meta(None, Some(vec![FrameEntry::Number(Some(7))]));
    assert!(expand_animation(Some(&nothing_left), 2).is_none());
}

#[test]
fn sidecars_that_are_not_json_or_single_frames_are_not_animated() {
    assert!(parse_mcmeta(b"not json", 4).is_none());
    assert!(parse_mcmeta(br#"{"animation":{}}"#, 1).is_none());
    let anim = parse_mcmeta(br#"{"animation":{"interpolate":true,"frames":[1,"x",{"time":4}]}}"#, 2).unwrap();
    assert!(anim.interpolate);
    assert_eq!(anim.steps, vec![AnimationStep { index: 1, ticks: 1 }]);
}

#[test]
fn durations_keep_their_low_32_bits_and_never_stall() {
    let anim = parse_mcmeta(br#"{"animation":{"frametime":4294967296,"frames":[0,{"index":1,"time":18446744073709551615},{"index":0,"time":4294967301}]}}"#, 2).unwrap();
    assert_eq!(
        anim.steps,
        vec![
            AnimationStep { index: 0, ticks: 1 },
            AnimationStep { index: 1, ticks: u32::MAX },
            AnimationStep { index: 0, ticks: 5 },
        ]
    );
}
