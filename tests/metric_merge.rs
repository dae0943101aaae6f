use event_pipeline::metric::{
    Bucket, Metric, MetricData, MetricKind, MetricValue, Quantile, Sample, StatisticKind, Tag,
};

fn strings(items: &[&str]) -> Vec<String> {
    items.iter().map(|s| s.to_string()).collect()
}

fn sorted(v: &MetricValue) -> Vec<String> {
    match v {
        MetricValue::DistinctSet { values } => {
            let mut out = values.clone();
            out.sort();
            out
        }
        _ => panic!("not a set"),
    }
}

#[test]
fn counter_merge_adds() {
    let mut c = MetricValue::Counter { value: 5 };
    assert!(c.add(&MetricValue::Counter { value: 3 }, MetricKind::Incremental));
    assert_eq!(c, MetricValue::Counter { value: 8 });
}

#[test]
fn counter_merge_overflow_fails_and_keeps_value() {
    let mut c = MetricValue::Counter { value: i64::MAX };
    assert!(!c.add(&MetricValue::Counter { value: 1 }, MetricKind::Incremental));
    assert_eq!(c, MetricValue::Counter { value: i64::MAX });
}

#[test]
fn counter_increments_sum_in_any_order() {
    let incs = [4i64, -7, 11];
    let orders = [[0, 1, 2], [0, 2, 1], [1, 0, 2], [1, 2, 0], [2, 0, 1], [2, 1, 0]];
    for order in orders.iter() {
        let mut c = MetricValue::Counter { value: 0 };
        for &i in order.iter() {
            assert!(c.add(&MetricValue::Counter { value: incs[i] }, MetricKind::Incremental));
        }
        assert_eq!(c, MetricValue::Counter { value: 8 });
    }
}

#[test]
fn gauge_incremental_adds() {
    let mut g = MetricValue::Gauge { value: 10 };
    assert!(g.add(&MetricValue::Gauge { value: -4 }, MetricKind::Incremental));
    assert_eq!(g, MetricValue::Gauge { value: 6 });
}

#[test]
fn gauge_absolute_replaces() {
    let mut g = MetricValue::Gauge { value: 10 };
    assert!(g.add(&MetricValue::Gauge { value: -4 }, MetricKind::Absolute));
    assert_eq!(g, MetricValue::Gauge { value: -4 });
}

#[test]
fn distribution_merge_concatenates() {
    let s1 = vec![Sample { value: 1, rate: 1 }, Sample { value: 2, rate: 3 }];
    let s2 = vec![Sample { value: 2, rate: 3 }, Sample { value: 0, rate: 1 }];
    let mut d = MetricValue::Distribution { samples: vec![], statistic: StatisticKind::Histogram };
    assert!(d.add(
        &MetricValue::Distribution { samples: s1.clone(), statistic: StatisticKind::Histogram },
        MetricKind::Incremental
    ));
    assert!(d.add(
        &MetricValue::Distribution { samples: s2.clone(), statistic: StatisticKind::Histogram },
        MetricKind::Incremental
    ));
    let mut expected = s1;
    expected.extend(s2);
    assert_eq!(
        d,
        MetricValue::Distribution { samples: expected, statistic: StatisticKind::Histogram }
    );
}

#[test]
fn distribution_statistic_mismatch_fails() {
    let before = MetricValue::Distribution {
        samples: vec![Sample { value: 1, rate: 1 }],
        statistic: StatisticKind::Histogram,
    };
    let mut d = before.clone();
    assert!(!d.add(
        &MetricValue::Distribution {
            samples: vec![Sample { value: 5, rate: 1 }],
            statistic: StatisticKind::Summary
        },
        MetricKind::Incremental
    ));
    assert_eq!(d, before);
}

#[test]
fn set_merge_is_union() {
    let mut s = MetricValue::DistinctSet { values: strings(&["a", "b"]) };
    assert!(s.add(&MetricValue::DistinctSet { values: strings(&["b", "c"]) }, MetricKind::Incremental));
    assert_eq!(sorted(&s), strings(&["a", "b", "c"]));
}

#[test]
fn set_merge_commutes_and_is_idempotent() {
    let a = MetricValue::DistinctSet { values: strings(&["x", "y"]) };
    let b = MetricValue::DistinctSet { values: strings(&["y", "z"]) };
    let mut ab = MetricValue::DistinctSet { values: strings(&["s"]) };
    let mut ba = ab.clone();
    assert!(ab.add(&a, MetricKind::Incremental) && ab.add(&b, MetricKind::Incremental));
    assert!(ba.add(&b, MetricKind::Incremental) && ba.add(&a, MetricKind::Incremental));
    assert_eq!(sorted(&ab), sorted(&ba));
    let mut aa = MetricValue::DistinctSet { values: strings(&["s"]) };
    assert!(aa.add(&a, MetricKind::Incremental));
    let once = sorted(&aa);
    assert!(aa.add(&a, MetricKind::Incremental));
    assert_eq!(sorted(&aa), once);
    assert_eq!(once, strings(&["s", "x", "y"]));
}

#[test]
fn mismatched_variants_fail_unchanged() {
    let mut c = MetricValue::Counter { value: 1 };
    assert!(!c.add(&MetricValue::Gauge { value: 2 }, MetricKind::Incremental));
    assert_eq!(c, MetricValue::Counter { value: 1 });
}

#[test]
fn pre_aggregated_values_never_merge() {
    let values = vec![
        MetricValue::AggregatedHistogram {
            buckets: vec![Bucket { upper_limit: 10, count: 2 }],
            count: 2,
            sum: 7,
        },
        MetricValue::AggregatedSummary {
            quantiles: vec![Quantile { quantile: 500_000, value: 3 }],
            count: 4,
            sum: 12,
        },
        MetricValue::Sketch { payload: vec![1, 2, 3] },
    ];
    for v in values {
        let mut existing = v.clone();
        assert!(!existing.add(&v, MetricKind::Incremental));
        assert!(!existing.add(&v, MetricKind::Absolute));
        assert_eq!(existing, v);
    }
}

#[test]
fn data_kind_mismatch_fails_unchanged() {
    let before = MetricData {
        kind: MetricKind::Incremental,
        timestamp: Some(1),
        value: MetricValue::Counter { value: 1 },
    };
    let mut d = before.clone();
    let other = MetricData {
        kind: MetricKind::Absolute,
        timestamp: Some(2),
        value: MetricValue::Counter { value: 1 },
    };
    assert!(!d.add(&other));
    assert_eq!(d, before);
}

#[test]
fn data_merge_takes_incoming_timestamp() {
    let mut d = MetricData {
        kind: MetricKind::Incremental,
        timestamp: Some(1),
        value: MetricValue::Counter { value: 1 },
    };
    let other = MetricData {
        kind: MetricKind::Incremental,
        timestamp: Some(9),
        value: MetricValue::Counter { value: 2 },
    };
    assert!(d.add(&other));
    assert_eq!(d.timestamp, Some(9));
    assert_eq!(d.value, MetricValue::Counter { value: 3 });
}

#[test]
fn metric_add_keeps_name_and_tags() {
    let tags = vec![Tag { key: "host".to_string(), value: "a".to_string() }];
    let mut m = Metric::new("requests".to_string(), MetricKind::Incremental, MetricValue::Counter { value: 2 })
        .with_tags(tags.clone())
        .with_timestamp(Some(5));
    assert_eq!(m.timestamp(), Some(5));
    let inc = MetricData {
        kind: MetricKind::Incremental,
        timestamp: Some(6),
        value: MetricValue::Counter { value: 40 },
    };
    assert!(m.add(&inc));
    assert_eq!(m.name, "requests");
    assert_eq!(m.tags, tags);
    assert_eq!(m.kind(), MetricKind::Incremental);
    assert_eq!(m.timestamp(), Some(6));
    assert_eq!(*m.value(), MetricValue::Counter { value: 42 });
}
