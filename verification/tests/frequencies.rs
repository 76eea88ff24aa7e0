use spafe::frequencies::pitch_period;

fn flags(cmdf: &[f64], threshold: f64) -> (Vec<bool>, Vec<bool>) {
    let below = cmdf.iter().map(|v| *v < threshold).collect();
    let descending = (0..cmdf.len())
        .map(|t| t + 1 < cmdf.len() && cmdf[t + 1] < cmdf[t])
        .collect();
    (below, descending)
}

#[test]
fn pitch_follows_dip_to_bottom() {
    let cmdf = [1.0, 0.9, 0.5, 0.08, 0.05, 0.02, 0.3, 0.01];
    let (below, descending) = flags(&cmdf, 0.1);
    assert_eq!(pitch_period(&below, &descending, 1, 8), Some(5));
    assert_eq!(pitch_period(&below, &descending, 6, 8), Some(7));
    // The search range ends at tau_max.
    assert_eq!(pitch_period(&below, &descending, 1, 5), Some(4));
}

#[test]
fn pitch_absent_when_no_lag_is_under_threshold() {
    let cmdf = [1.0, 0.9, 0.5, 0.4];
    let (below, descending) = flags(&cmdf, 0.1);
    assert_eq!(pitch_period(&below, &descending, 0, 10), None);
    assert_eq!(pitch_period(&below, &descending, 3, 2), None);
    assert_eq!(pitch_period(&[], &[], 0, 3), None);
}
