use fastqscan::ratio::Ratio;
use fastqscan::record::FastqRecord;
use fastqscan::report::{BaseProportions, PositionQuality, Report};
use fastqscan::stats::base_composition::BaseCompositionStatistic;
use fastqscan::stats::base_quality::BaseQualityPosStatistic;
use fastqscan::stats::gc_content::GcContentStatistic;
use fastqscan::stats::length_distribution::LengthDistributionStatistic;
use fastqscan::stats::read_quality::ReadQualityStatistic;
use fastqscan::stats::{all_statistics, Statistic};

fn record(seq: &[u8], qual: &[u8]) -> FastqRecord {
    FastqRecord { seq: seq.to_vec(), qual: qual.to_vec() }
}

fn ratio(num: i128, den: u64) -> Ratio {
    Ratio { num, den }
}

fn value(r: Ratio) -> f64 {
    r.num as f64 / r.den as f64
}

fn only(base: usize) -> BaseProportions {
    let pick = |i: usize| if i == base { ratio(1, 1) } else { ratio(0, 1) };
    BaseProportions { a: pick(0), c: pick(1), g: pick(2), t: pick(3), n: pick(4) }
}

#[test]
fn length_distribution_accumulates_in_order() {
    let mut stat = LengthDistributionStatistic::new();
    assert_eq!(stat.report(), Report::LengthDistribution(vec![]));
    stat.process(&record(b"ACGT", b"!!!!"));
    stat.process(&record(b"TGCA", b"####"));
    assert_eq!(stat.report(), Report::LengthDistribution(vec![4, 4]));
    stat.process(&record(b"AC", b"##"));
    stat.process(&record(b"", b""));
    assert_eq!(stat.report(), Report::LengthDistribution(vec![4, 4, 2, 0]));
}

#[test]
fn base_composition_of_acgt() {
    let mut stat = BaseCompositionStatistic::new();
    assert_eq!(stat.report(), Report::BaseCompositions(vec![]));
    stat.process(&record(b"ACGT", b"!!!!"));
    assert_eq!(stat.report(), Report::BaseCompositions(vec![only(0), only(1), only(2), only(3)]));
    match stat.report() {
        Report::BaseCompositions(entries) => {
            assert_eq!(value(entries[0].a), 1.0);
            assert_eq!(value(entries[0].c), 0.0);
            assert_eq!(value(entries[1].c), 1.0);
            assert_eq!(value(entries[2].g), 1.0);
            assert_eq!(value(entries[3].t), 1.0);
            assert_eq!(value(entries[3].n), 0.0);
        }
        other => panic!("unexpected report {:?}", other),
    }
}

#[test]
fn base_composition_keeps_only_the_last_read() {
    let mut stat = BaseCompositionStatistic::new();
    stat.process(&record(b"ACGT", b"!!!!"));
    stat.process(&record(b"TGCA", b"####"));
    assert_eq!(stat.report(), Report::BaseCompositions(vec![only(3), only(2), only(1), only(0)]));
    stat.process(&record(b"N", b"#"));
    assert_eq!(stat.report(), Report::BaseCompositions(vec![only(4)]));
}

#[test]
fn base_composition_ignores_case_and_other_bytes() {
    let mut stat = BaseCompositionStatistic::new();
    stat.process(&record(b"acgtn-X", b"!!!!!!!"));
    assert_eq!(
        stat.report(),
        Report::BaseCompositions(vec![
            only(0),
            only(1),
            only(2),
            only(3),
            only(4),
            only(5),
            only(5)
        ])
    );
}

#[test]
fn gc_content_of_gcgc_and_atat() {
    let mut stat = GcContentStatistic::new();
    assert_eq!(stat.report(), Report::GcContent { per_position: vec![], per_read: ratio(0, 1) });
    stat.process(&record(b"GCGC", b"!!!!"));
    assert_eq!(
        stat.report(),
        Report::GcContent { per_position: vec![ratio(1, 1); 4], per_read: ratio(4, 4) }
    );
    match stat.report() {
        Report::GcContent { per_position, per_read } => {
            assert_eq!(value(per_read), 1.0);
            let values: Vec<f64> = per_position.into_iter().map(value).collect();
            assert_eq!(values, vec![1.0, 1.0, 1.0, 1.0]);
        }
        other => panic!("unexpected report {:?}", other),
    }
    stat.process(&record(b"ATAT", b"!!!!"));
    assert_eq!(
        stat.report(),
        Report::GcContent { per_position: vec![ratio(0, 1); 4], per_read: ratio(0, 4) }
    );
}

#[test]
fn gc_content_counts_upper_case_only() {
    let mut stat = GcContentStatistic::new();
    stat.process(&record(b"GcAC", b"!!!!"));
    assert_eq!(
        stat.report(),
        Report::GcContent {
            per_position: vec![ratio(1, 1), ratio(0, 1), ratio(0, 1), ratio(1, 1)],
            per_read: ratio(2, 4),
        }
    );
}

#[test]
fn read_quality_takes_the_offset_off() {
    let mut stat = ReadQualityStatistic::new();
    assert_eq!(stat.report(), Report::ReadQuality(ratio(0, 1)));
    stat.process(&record(b"ACGT", b"!!!!"));
    assert_eq!(stat.report(), Report::ReadQuality(ratio(0, 4)));
    stat.process(&record(b"TGCA", b"####"));
    assert_eq!(stat.report(), Report::ReadQuality(ratio(8, 4)));
    match stat.report() {
        Report::ReadQuality(average) => assert_eq!(value(average), 2.0),
        other => panic!("unexpected report {:?}", other),
    }
}

#[test]
fn read_quality_divides_by_the_number_of_bases() {
    let mut stat = ReadQualityStatistic::new();
    stat.process(&record(b"AC", b"I5+"));
    assert_eq!(stat.report(), Report::ReadQuality(ratio(40 + 20 + 10, 2)));
    stat.process(&record(b"ACG", b" "));
    assert_eq!(stat.report(), Report::ReadQuality(ratio(-1, 3)));
}

#[test]
fn base_quality_divides_each_byte_by_the_read_length() {
    let mut stat = BaseQualityPosStatistic::new();
    assert_eq!(stat.report(), Report::BaseQualityPosition(vec![]));
    stat.process(&record(b"ACGT", b"!#%I"));
    assert_eq!(
        stat.report(),
        Report::BaseQualityPosition(vec![
            PositionQuality { position: 1, average_quality: ratio(33, 4) },
            PositionQuality { position: 2, average_quality: ratio(35, 4) },
            PositionQuality { position: 3, average_quality: ratio(37, 4) },
            PositionQuality { position: 4, average_quality: ratio(73, 4) },
        ])
    );
}

#[test]
fn base_quality_has_one_entry_for_each_quality_byte() {
    let mut stat = BaseQualityPosStatistic::new();
    stat.process(&record(b"ACGT", b"!!!!"));
    stat.process(&record(b"AC", b"#####"));
    assert_eq!(
        stat.report(),
        Report::BaseQualityPosition(
            (1..=5).map(|p| PositionQuality { position: p, average_quality: ratio(35, 2) }).collect()
        )
    );
}

#[test]
fn a_read_without_bases_changes_only_the_lengths() {
    let mut set = all_statistics();
    for stat in set.iter_mut() {
        stat.process(&record(b"GC", b"##"));
    }
    let before: Vec<Report> = set.iter().map(|s| s.report()).collect();
    for stat in set.iter_mut() {
        stat.process(&record(b"", b"####"));
    }
    let after: Vec<Report> = set.iter().map(|s| s.report()).collect();
    assert_eq!(after[0], before[0]);
    assert_eq!(after[1], before[1]);
    assert_eq!(after[2], before[2]);
    assert_eq!(after[3], before[3]);
    assert_eq!(before[4], Report::LengthDistribution(vec![2]));
    assert_eq!(after[4], Report::LengthDistribution(vec![2, 0]));
}

#[test]
fn all_statistics_start_empty_and_in_order() {
    let reports: Vec<Report> = all_statistics().iter().map(|s| s.report()).collect();
    assert_eq!(
        reports,
        vec![
            Report::BaseQualityPosition(vec![]),
            Report::ReadQuality(ratio(0, 1)),
            Report::BaseCompositions(vec![]),
            Report::GcContent { per_position: vec![], per_read: ratio(0, 1) },
            Report::LengthDistribution(vec![]),
        ]
    );
}

#[test]
fn statistic_forwards_to_its_kind() {
    let mut stat = Statistic::ReadQuality(ReadQualityStatistic::new());
    stat.process(&record(b"TGCA", b"####"));
    assert_eq!(stat.report(), Report::ReadQuality(ratio(8, 4)));
    let mut stat = Statistic::LengthDistribution(LengthDistributionStatistic::new());
    stat.process(&record(b"TGCA", b"####"));
    assert_eq!(stat.report(), Report::LengthDistribution(vec![4]));
}

#[test]
fn ratio_constants() {
    assert_eq!(Ratio::zero(), ratio(0, 1));
    assert_eq!(Ratio::one(), ratio(1, 1));
}
