use aura::{AgeGroup, InferenceSignal, SignalSource, ONE};

#[test]
fn age_brackets() {
    let expected = [
        (0, AgeGroup::Under18),
        (17, AgeGroup::Under18),
        (18, AgeGroup::Age18_24),
        (24, AgeGroup::Age18_24),
        (25, AgeGroup::Age25_34),
        (34, AgeGroup::Age25_34),
        (35, AgeGroup::Age35_44),
        (44, AgeGroup::Age35_44),
        (45, AgeGroup::Age45_54),
        (54, AgeGroup::Age45_54),
        (55, AgeGroup::Age55_64),
        (64, AgeGroup::Age55_64),
        (65, AgeGroup::Age65Plus),
        (120, AgeGroup::Age65Plus),
        (i32::MAX, AgeGroup::Age65Plus),
        (-1, AgeGroup::Age65Plus),
        (i32::MIN, AgeGroup::Age65Plus),
    ];
    for (age, group) in expected {
        assert_eq!(AgeGroup::from_age(age), group);
    }
}

#[test]
fn one_hot_distributions() {
    assert_eq!(AgeGroup::Under18.to_one_hot(), [ONE, 0, 0, 0, 0, 0, 0]);
    assert_eq!(AgeGroup::Age35_44.to_one_hot(), [0, 0, 0, ONE, 0, 0, 0]);
    assert_eq!(AgeGroup::Age65Plus.to_one_hot(), [0, 0, 0, 0, 0, 0, ONE]);
    for k in 0..7 {
        let group = AgeGroup::from_index(k);
        assert_eq!(group.index(), k);
        assert_eq!(group.to_one_hot()[k], ONE);
        assert_eq!(group.to_one_hot().iter().sum::<u32>(), ONE);
    }
    assert_eq!(AgeGroup::from_index(7), AgeGroup::Age65Plus);
    assert_eq!(AgeGroup::from_index(usize::MAX), AgeGroup::Age65Plus);
}

#[test]
fn weighted_blend_of_age_distributions() {
    let young = AgeGroup::Age18_24.to_one_hot();
    let old = AgeGroup::Age65Plus.to_one_hot();
    // equal weights: the plain mean
    assert_eq!(AgeGroup::blend(&[young, old], &[ONE, ONE]), [0, 500_000_000, 0, 0, 0, 0, 500_000_000]);
    // three to one
    assert_eq!(
        AgeGroup::blend(&[young, old], &[750_000_000, 250_000_000]),
        [0, 750_000_000, 0, 0, 0, 0, 250_000_000]
    );
    // in whole shares that add up to one
    assert_eq!(
        AgeGroup::blend(&[young, old, old], &[1, 1, 1]),
        [0, 333_333_334, 0, 0, 0, 0, 666_666_666]
    );
    // a distribution without a weight does not count
    assert_eq!(AgeGroup::blend(&[young, old], &[ONE]), young);
    // a weight without a distribution still counts in the total
    assert_eq!(AgeGroup::blend(&[young], &[ONE, ONE]), [0, 500_000_000, 0, 0, 0, 0, 0]);
    // no weight at all: no opinion
    assert_eq!(AgeGroup::blend(&[young, old], &[0, 0]), [0; 7]);
    assert_eq!(AgeGroup::blend(&[young, old], &[]), [0; 7]);
    assert_eq!(AgeGroup::blend(&[], &[ONE]), [0; 7]);
    assert_eq!(AgeGroup::blend(&[], &[]), [0; 7]);
    // three certain distributions share one without loss
    let blended = AgeGroup::blend(
        &[young, old, AgeGroup::Under18.to_one_hot()],
        &[ONE, ONE, ONE],
    );
    assert_eq!(blended, [333_333_334, 333_333_333, 0, 0, 0, 0, 333_333_333]);
    assert_eq!(blended.iter().sum::<u32>(), ONE);
    // only the ratio of the weights counts
    assert_eq!(AgeGroup::blend(&[young, old, old], &[7, 7, 7]), [
        0,
        333_333_334,
        0,
        0,
        0,
        0,
        666_666_666
    ]);
    let uneven = AgeGroup::blend(&[young, old, AgeGroup::Age35_44.to_one_hot()], &[1, 2, 4]);
    assert_eq!(uneven, [0, 142_857_143, 0, 571_428_572, 0, 0, 285_714_285]);
    assert_eq!(uneven.iter().sum::<u32>(), ONE);
    let full = [u32::MAX; 7];
    assert_eq!(AgeGroup::blend(&[full, full], &[u32::MAX, u32::MAX]), full);
}

#[test]
fn a_new_signal_holds_no_opinion() {
    for source in
        [SignalSource::Local, SignalSource::Vision, SignalSource::Onomastic, SignalSource::Domain]
    {
        let s = InferenceSignal::new(source);
        assert_eq!(s.source, source);
        assert!(!s.has_gender_signal());
        assert!(!s.has_age_signal());
        assert_eq!(s.age_probs(), [0; 7]);
        assert_eq!(s.ethnicity, None);
        assert_eq!(s.birth_year, None);
        assert_eq!(s.organization, None);
        assert_eq!(s.tokens_used, None);
        assert_eq!(s.latency_ms, 0);
        assert!(s.reasoning.is_empty());
    }
}

#[test]
fn opinions_and_age_probabilities() {
    let mut s = InferenceSignal::new(SignalSource::Vision);
    s.gender_other = 1;
    assert!(s.has_gender_signal());
    assert!(!s.has_age_signal());
    s.set_age_probs([1, 2, 3, 4, 5, 6, 7]);
    assert_eq!(
        (
            s.age_group_under_18,
            s.age_group_18_24,
            s.age_group_25_34,
            s.age_group_35_44,
            s.age_group_45_54,
            s.age_group_55_64,
            s.age_group_65_plus
        ),
        (1, 2, 3, 4, 5, 6, 7)
    );
    assert_eq!(s.age_probs(), [1, 2, 3, 4, 5, 6, 7]);
    assert!(s.has_age_signal());
    assert_eq!(s.gender_other, 1);
    s.set_age_probs([0, 0, 0, 0, 0, 0, 1]);
    assert!(s.has_age_signal());
    s.set_age_probs([0; 7]);
    assert!(!s.has_age_signal());
}
