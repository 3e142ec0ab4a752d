use photoframe::config::{
    classify_matting_field, classify_transition_field, eink_counts_normalized, iris_blades_normalized,
    check_runtime_limits, message_or_default, resolve_pipeline_selection, GreetingScreenColorsConfig, MattingConfig, MattingField,
    MattingFieldSet, MattingKind, MattingRuntime, MattingSelection, MattingError, PhotoEffectConfig,
    PhotoEffectError, PhotoEffectKind, PhotoEffectSelection, PipelineSelection, PlaylistError, PlaylistOptions,
    RuntimeLimitError, ScreenColor, SelectionEntry, SelectionError, SequentialState, StudioMatColor, TransitionConfig,
    TransitionError, TransitionField, TransitionKind, TransitionSelection, DAY_NS,
};
use rand::rngs::StdRng;
use rand::SeedableRng;
use std::sync::Arc;

fn entries<K: Copy>(kinds: &[K]) -> Vec<SelectionEntry<K>> {
    kinds.iter().enumerate().map(|(index, kind)| SelectionEntry { index, kind: *kind }).collect()
}

#[test]
fn selection_defaults_to_fixed_for_one_entry_and_random_for_more() {
    assert_eq!(resolve_pipeline_selection(None, 1), Ok(PipelineSelection::Fixed));
    assert_eq!(resolve_pipeline_selection(None, 3), Ok(PipelineSelection::Random));
    assert_eq!(resolve_pipeline_selection(Some(PipelineSelection::Sequential), 2), Ok(PipelineSelection::Sequential));
}

#[test]
fn matting_with_empty_active_is_rejected() {
    assert_eq!(resolve_pipeline_selection(None, 0), Err(SelectionError::NoActiveEntries));
    assert!(matches!(
        MattingSelection::from_active(Some(PipelineSelection::Random), Vec::new()),
        Err(SelectionError::NoActiveEntries)
    ));
}

#[test]
fn matting_fixed_selection_requires_single_entry() {
    assert_eq!(
        resolve_pipeline_selection(Some(PipelineSelection::Fixed), 2),
        Err(SelectionError::FixedRequiresSingleEntry)
    );
    let e = entries(&[MattingKind::FixedColor, MattingKind::Blur]);
    assert!(matches!(
        MattingSelection::from_active(Some(PipelineSelection::Fixed), e),
        Err(SelectionError::FixedRequiresSingleEntry)
    ));
}

#[test]
fn sequential_state_rotates_and_wraps() {
    let mut s = SequentialState::new();
    let picks: Vec<usize> = (0..5).map(|_| s.next(3)).collect();
    assert_eq!(picks, vec![0, 1, 2, 0, 1]);
    let mut t = SequentialState { next_index: usize::MAX };
    assert_eq!(t.next(4), usize::MAX % 4);
    assert_eq!(t.next_index, 0);
}

#[test]
fn sequential_iteration_over_entries() {
    let e = entries(&[MattingKind::FixedColor, MattingKind::FixedColor, MattingKind::Studio]);
    let selection = MattingSelection::from_active(Some(PipelineSelection::Sequential), e).unwrap();
    let mut config = MattingConfig { selection, options: vec!["black", "white", "studio"] };
    let mut rng = StdRng::seed_from_u64(1);
    let picked: Vec<&str> = (0..4).map(|_| *config.select_active(&mut rng).option).collect();
    assert_eq!(picked, vec!["black", "white", "studio", "black"]);
}

#[test]
fn random_selection_stays_within_entries() {
    let e = entries(&[TransitionKind::Fade, TransitionKind::Wipe, TransitionKind::Iris]);
    let selection = TransitionSelection::from_active(None, e).unwrap();
    assert!(matches!(selection, TransitionSelection::Random(_)));
    let mut config = TransitionConfig { selection, options: vec![400u64, 500, 900] };
    let mut rng = StdRng::seed_from_u64(7);
    for _ in 0..20 {
        let chosen = config.select_active(&mut rng);
        assert_eq!(*chosen.option, [400u64, 500, 900][chosen.entry.index]);
    }
}

#[test]
fn primary_and_indexed_selection_skip_missing_options() {
    let selection = MattingSelection::Random(vec![
        SelectionEntry { index: 5, kind: MattingKind::Blur },
        SelectionEntry { index: 1, kind: MattingKind::Studio },
        SelectionEntry { index: 0, kind: MattingKind::FixedColor },
    ]);
    let config = MattingConfig { selection, options: vec!['a', 'b'] };
    let all = config.iter_selected();
    assert_eq!(all.len(), 2);
    assert_eq!(all[0].entry.index, 1);
    assert_eq!(*all[0].option, 'b');
    let primary = config.primary_selected().unwrap();
    assert_eq!(primary.entry.kind, MattingKind::Studio);
    assert_eq!(config.primary_option(), Some(&'b'));
    assert_eq!(config.selected_by_index(0).unwrap().entry.kind, MattingKind::FixedColor);
    assert!(config.selected_by_index(5).is_none());
    assert_eq!(config.options().len(), 2);
}

#[test]
fn transition_entries_must_match_option_kinds() {
    let e = entries(&[TransitionKind::Fade, TransitionKind::Push]);
    let selection = TransitionSelection::from_active(Some(PipelineSelection::Sequential), e).unwrap();
    let config = TransitionConfig { selection, options: vec![(), ()] };
    assert_eq!(config.check_entries(&vec![TransitionKind::Fade, TransitionKind::Push]), Ok(()));
    assert_eq!(
        config.check_entries(&vec![TransitionKind::Fade, TransitionKind::Wipe]),
        Err(TransitionError::KindMismatch { kind: TransitionKind::Push, index: 1 })
    );
    let short = TransitionConfig { selection: TransitionSelection::Fixed(SelectionEntry { index: 3, kind: TransitionKind::Iris }), options: vec![()] };
    assert_eq!(
        short.check_entries(&vec![TransitionKind::Iris]),
        Err(TransitionError::IndexOutOfBounds { kind: TransitionKind::Iris, index: 3 })
    );
    let empty: TransitionConfig<()> = TransitionConfig { selection: TransitionSelection::Random(Vec::new()), options: Vec::new() };
    assert_eq!(empty.check_entries(&Vec::new()), Err(TransitionError::NoActiveEntries));
}

#[test]
fn photo_effect_disabled_without_entries() {
    let selection = PhotoEffectSelection::from_active(None, Vec::new()).unwrap();
    assert!(matches!(selection, PhotoEffectSelection::Disabled));
    let mut config: PhotoEffectConfig<u8> = PhotoEffectConfig::disabled();
    assert!(!config.is_enabled());
    assert_eq!(config.prepare_runtime(), Ok(()));
    let mut rng = StdRng::seed_from_u64(3);
    assert!(config.choose_option(&mut rng).is_none());
}

#[test]
fn photo_effect_requires_options_for_each_entry() {
    let e = entries(&[PhotoEffectKind::PrintSimulation]);
    let selection = PhotoEffectSelection::from_active(None, e).unwrap();
    let mut config = PhotoEffectConfig { selection, options: Vec::<(PhotoEffectKind, u8)>::new() };
    assert!(config.is_enabled());
    assert_eq!(
        config.prepare_runtime(),
        Err(PhotoEffectError::MissingOptions { index: 0, kind: PhotoEffectKind::PrintSimulation })
    );
    config.options.push((PhotoEffectKind::PrintSimulation, 9));
    assert_eq!(config.prepare_runtime(), Ok(()));
    let mut rng = StdRng::seed_from_u64(3);
    assert_eq!(config.choose_option(&mut rng), Some(&9));
    let no_entries = PhotoEffectConfig { selection: PhotoEffectSelection::Random(Vec::new()), options: Vec::<(PhotoEffectKind, u8)>::new() };
    assert_eq!(no_entries.prepare_runtime(), Err(PhotoEffectError::NoActiveEntries));
}

#[test]
fn kind_names_round_trip() {
    for k in [MattingKind::FixedColor, MattingKind::Blur, MattingKind::Studio, MattingKind::FixedImage] {
        assert_eq!(MattingKind::from_name(k.as_str()), Some(k));
    }
    for k in [TransitionKind::Fade, TransitionKind::Wipe, TransitionKind::Push, TransitionKind::EInk, TransitionKind::Iris] {
        assert_eq!(TransitionKind::from_name(k.as_str()), Some(k));
    }
    assert_eq!(TransitionKind::EInk.as_str(), "e-ink");
    assert_eq!(PhotoEffectKind::from_name("print-simulation"), Some(PhotoEffectKind::PrintSimulation));
    assert_eq!(MattingKind::from_name("Blur"), None);
    assert_eq!(TransitionKind::Fade.as_index(), 1);
    assert_eq!(TransitionKind::Iris.as_index(), 5);
    assert_eq!(TransitionKind::EInk.default_duration_ms(), 1600);
}

#[test]
fn matting_type_field_is_rejected() {
    assert_eq!(classify_matting_field(MattingKind::FixedColor, "type"), None);
    assert_eq!(classify_matting_field(MattingKind::Blur, "colors"), None);
    assert_eq!(classify_matting_field(MattingKind::Studio, "colors"), Some(MattingField::Colors));
    assert_eq!(classify_matting_field(MattingKind::FixedImage, "max-upscale-factor"), Some(MattingField::MaxUpscaleFactor));
}

#[test]
fn transition_type_field_is_rejected() {
    assert_eq!(classify_transition_field(TransitionKind::Fade, "type"), None);
    assert_eq!(classify_transition_field(TransitionKind::Fade, "softness"), None);
    assert_eq!(classify_transition_field(TransitionKind::Wipe, "softness"), Some(TransitionField::Softness));
    assert_eq!(classify_transition_field(TransitionKind::Push, "angle-jitter-degrees"), Some(TransitionField::AngleJitterDegrees));
    assert_eq!(classify_transition_field(TransitionKind::Iris, "duration-ms"), Some(TransitionField::DurationMs));
}

#[test]
fn duplicate_palette_fields_are_refused() {
    let mut seen = MattingFieldSet::new();
    assert_eq!(seen.record(MattingField::Colors), Ok(()));
    assert_eq!(seen.record(MattingField::Color), Err(MattingField::Color));
    assert_eq!(seen.record(MattingField::ColorSelection), Ok(()));
    assert_eq!(seen.record(MattingField::ColorSelection), Err(MattingField::ColorSelection));
}

#[test]
fn iris_transition_clamps_blade_count() {
    assert_eq!(iris_blades_normalized(1), 3);
    assert_eq!(iris_blades_normalized(7), 7);
    assert_eq!(iris_blades_normalized(40), 12);
    assert_eq!(eink_counts_normalized(0, 9), (1, 6));
    assert_eq!(eink_counts_normalized(24, 2), (24, 2));
}

#[test]
fn matting_runtime_takes_first_palette_entry() {
    let rt: MattingRuntime<String> = MattingRuntime::for_fixed_colors(&[[1, 2, 3], [4, 5, 6]]).unwrap();
    assert_eq!(rt.fixed_color(), Some([1, 2, 3]));
    assert!(rt.fixed_image().is_none());
    assert!(matches!(MattingRuntime::<String>::for_fixed_colors(&[]), Err(MattingError::EmptyPalette)));
    let studio: MattingRuntime<String> = MattingRuntime::for_studio_colors(&[StudioMatColor::PhotoAverage]).unwrap();
    assert_eq!(studio.studio_color, Some(StudioMatColor::PhotoAverage));
    let image = Arc::new("bg.png".to_string());
    let with_image = MattingRuntime::for_fixed_image(Some(image.clone()));
    assert!(Arc::ptr_eq(&with_image.fixed_image().unwrap(), &image));
}

#[test]
fn playlist_options_validate() {
    let defaults = PlaylistOptions::default();
    assert_eq!(defaults.new_multiplicity, 3);
    assert_eq!(defaults.half_life_ns, DAY_NS);
    assert_eq!(defaults.validate(), Ok(()));
    assert_eq!(PlaylistOptions { new_multiplicity: 0, half_life_ns: 1 }.validate(), Err(PlaylistError::MultiplicityBelowOne));
    assert_eq!(PlaylistOptions { new_multiplicity: 1, half_life_ns: 0 }.validate(), Err(PlaylistError::ZeroHalfLife));
}

#[test]
fn screen_messages_and_colors() {
    assert_eq!(message_or_default(&Some("Hello".to_string())), "Hello");
    assert_eq!(message_or_default(&Some("   ".to_string())), "Initializing\u{2026}");
    assert_eq!(message_or_default(&None), "Initializing\u{2026}");
    let mut colors = GreetingScreenColorsConfig::new();
    assert_eq!(colors.first_blank(), None);
    colors.accent = Some(" ".to_string());
    colors.font = Some("#fff".to_string());
    assert_eq!(colors.first_blank(), Some(ScreenColor::Accent));
}

#[test]
fn selection_errors_name_their_pipeline() {
    assert_eq!(
        SelectionError::NoActiveEntries.message("matting"),
        "matting configuration must include at least one active entry"
    );
    assert_eq!(
        SelectionError::FixedRequiresSingleEntry.message("transition"),
        "transition selection 'fixed' requires exactly one active entry"
    );
}

#[test]
fn runtime_limits_are_checked_in_order() {
    assert_eq!(check_runtime_limits(3, 4, true, 2000, "/run/photo-frame/control.sock"), Ok(()));
    assert_eq!(check_runtime_limits(0, 0, false, 0, ""), Err(RuntimeLimitError::ZeroPreload));
    assert_eq!(check_runtime_limits(3, 0, true, 2000, "x.sock"), Err(RuntimeLimitError::ZeroConcurrentDecodes));
    assert_eq!(check_runtime_limits(3, 4, false, 2000, "x.sock"), Err(RuntimeLimitError::OversampleNotPositive));
    assert_eq!(check_runtime_limits(3, 4, true, 0, "x.sock"), Err(RuntimeLimitError::ZeroDwell));
    assert_eq!(check_runtime_limits(3, 4, true, 2000, ""), Err(RuntimeLimitError::EmptySocketPath));
    assert_eq!(check_runtime_limits(3, 4, true, 2000, "/run/.."), Err(RuntimeLimitError::SocketPathWithoutFileName));
    assert_eq!(RuntimeLimitError::ZeroPreload.message(), "viewer-preload-count must be greater than zero");
}
