use wavecrux_sigrok_bridge::engine::{
    annotation_from_raw, class_index, decoder_id_for, display_name_for, option_kind, protocol_of,
    require_init, sample_to_fs, RawAnnotation,
};
use wavecrux_sigrok_bridge::replay::{
    apply_changes, chunk_bounds, frame_width, pack_row, repeat_row, ReplayState, SEND_CHUNK_SAMPLES,
};
use wavecrux_sigrok_bridge::schema::{BitValue, ChannelChange, OptionKind, SampleTransition};

fn cc(ch: u32, v: BitValue) -> ChannelChange {
    ChannelChange { ch, v }
}

#[test]
fn pack_row_is_lsb_first() {
    assert_eq!(pack_row(&[1, 0, 1], 1), vec![0b0000_0101]);
    let mut levels = vec![0u8; 10];
    levels[0] = 1;
    levels[8] = 1;
    levels[9] = 7;
    assert_eq!(pack_row(&levels, 2), vec![0b0000_0001, 0b0000_0011]);
    assert_eq!(pack_row(&[], 3), vec![0, 0, 0]);
}

#[test]
fn apply_changes_coerces_x_to_last_and_ignores_out_of_frame() {
    let mut levels = vec![0u8, 1, 0];
    apply_changes(&mut levels, &[cc(0, BitValue::One), cc(1, BitValue::X), cc(2, BitValue::One), cc(9, BitValue::One)]);
    assert_eq!(levels, vec![1, 1, 1]);
    apply_changes(&mut levels, &[cc(2, BitValue::Zero), cc(2, BitValue::X)]);
    assert_eq!(levels, vec![1, 1, 0]);
}

#[test]
fn chunks_cover_the_run() {
    assert!(chunk_bounds(5, 5).is_empty());
    assert!(chunk_bounds(9, 5).is_empty());
    assert_eq!(chunk_bounds(0, 10), vec![(0, 10)]);
    let c = chunk_bounds(100, 100 + 2 * SEND_CHUNK_SAMPLES + 1);
    assert_eq!(
        c,
        vec![
            (100, 100 + SEND_CHUNK_SAMPLES),
            (100 + SEND_CHUNK_SAMPLES, 100 + 2 * SEND_CHUNK_SAMPLES),
            (100 + 2 * SEND_CHUNK_SAMPLES, 100 + 2 * SEND_CHUNK_SAMPLES + 1),
        ]
    );
}

#[test]
fn repeat_row_repeats() {
    assert_eq!(repeat_row(&[1, 2], 3), vec![1, 2, 1, 2, 1, 2]);
    assert!(repeat_row(&[1, 2], 0).is_empty());
}

#[test]
fn frame_width_is_highest_index_plus_one() {
    assert_eq!(frame_width(&vec![]), 1);
    assert_eq!(frame_width(&vec![("a".into(), 0)]), 1);
    assert_eq!(frame_width(&vec![("a".into(), 3), ("b".into(), 9), ("c".into(), 1)]), 10);
}

#[test]
fn replay_state_emits_runs_between_transitions() {
    let mut st = ReplayState::new(&vec![("tck".into(), 0), ("tms".into(), 9)]);
    assert_eq!(st.num_channels(), 10);
    assert_eq!(st.unitsize(), 2);
    // The first transition only seeds the baseline.
    let t0 = SampleTransition { fs: 3_000_000, set: vec![cc(0, BitValue::One)] };
    assert!(st.pending_run(&t0).is_none());
    st.commit(&t0);
    // A change within the same sample emits nothing.
    let t1 = SampleTransition { fs: 3_500_000, set: vec![cc(9, BitValue::One)] };
    assert!(st.pending_run(&t1).is_none());
    st.commit(&t1);
    // A later transition emits the held level up to its sample.
    let t2 = SampleTransition { fs: 10_000_000, set: vec![cc(0, BitValue::Zero)] };
    let run = st.pending_run(&t2).unwrap();
    assert_eq!((run.from, run.to), (3, 10));
    assert_eq!(run.row, vec![0b0000_0001, 0b0000_0010]);
    st.commit(&t2);
    // End of stream: the final level as one sample.
    let last = st.final_run().unwrap();
    assert_eq!((last.from, last.to), (10, 11));
    assert_eq!(last.row, vec![0, 0b0000_0010]);
    st.finish();
    assert!(st.final_run().is_none());
    // The next transition seeds a new baseline.
    let t3 = SampleTransition { fs: 20_000_000, set: vec![] };
    assert!(st.pending_run(&t3).is_none());
}

#[test]
fn decoder_ids_wrap_protocol_names() {
    let id = decoder_id_for(&"uart".to_string());
    assert_eq!(id, "sigrok.uart");
    assert_eq!(protocol_of(&id).unwrap(), "uart");
    assert!(protocol_of(&"sigrok".to_string()).is_none());
    assert!(protocol_of(&"other.uart".to_string()).is_none());
    assert_eq!(protocol_of(&"sigrok.".to_string()).unwrap(), "");
}

#[test]
fn option_kinds_follow_the_default_type() {
    assert_eq!(option_kind(Some("s"), true), OptionKind::Enum);
    assert_eq!(option_kind(Some("s"), false), OptionKind::String);
    for t in ["x", "i", "t", "u", "n", "q", "y"] {
        assert_eq!(option_kind(Some(t), false), OptionKind::Int);
    }
    assert_eq!(option_kind(Some("d"), false), OptionKind::Float);
    assert_eq!(option_kind(Some("b"), true), OptionKind::Bool);
    assert_eq!(option_kind(Some("as"), false), OptionKind::String);
    assert_eq!(option_kind(None, true), OptionKind::String);
}

#[test]
fn engine_annotations_become_events() {
    assert_eq!(class_index(-3), 0);
    assert_eq!(class_index(4), 4);
    assert_eq!(sample_to_fs(7), 7_000_000);
    assert_eq!(sample_to_fs(u64::MAX / 1_000_000 + 1), u64::MAX);
    let e = annotation_from_raw(
        RawAnnotation { start_sample: 2, end_sample: 5, ann_class: 1, text: "ACK".into() },
        &"s4".to_string(),
    );
    assert_eq!((e.start_fs, e.end_fs, e.ann_class), (2_000_000, 5_000_000, 1));
    assert_eq!((e.session.as_str(), e.label.as_str(), e.fields.as_str()), ("s4", "ACK", "{}"));
    assert!(!e.is_error);
}

#[test]
fn display_names_prefer_the_long_name() {
    assert_eq!(display_name_for("Universal Asynchronous".into(), "UART".into()), "Universal Asynchronous");
    assert_eq!(display_name_for(String::new(), "UART".into()), "UART");
    assert!(require_init(true).is_ok());
    assert_eq!(require_init(false).unwrap_err(), "libsigrokdecode failed to initialize (see stderr log)");
}

#[test]
fn pack_row_accepts_zero_levels_past_the_row() {
    assert_eq!(pack_row(&[1, 0, 0, 0, 0, 0, 0, 0, 0, 0], 1), vec![1u8]);
}
