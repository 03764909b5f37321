use cchecker::palette::{bucket_label, bucket_rgb, color_bucket, legend, Bucket};
use cchecker::calendar::CivilDate;
use cchecker::heatmap::build_year_matrix;

#[test]
fn bucket_boundaries() {
    let counts = [0u64, 1, 2, 3, 4, 6, 7, 9, 10, 1000];
    let want = [
        Bucket::Empty,
        Bucket::One,
        Bucket::Low,
        Bucket::Low,
        Bucket::Mid,
        Bucket::Mid,
        Bucket::High,
        Bucket::High,
        Bucket::Max,
        Bucket::Max,
    ];
    for (c, b) in counts.iter().zip(want.iter()) {
        assert_eq!(color_bucket(*c), *b);
    }
    assert_eq!(color_bucket(5), Bucket::Mid);
    assert_eq!(color_bucket(8), Bucket::High);
    assert_eq!(color_bucket(u64::MAX), Bucket::Max);
}

#[test]
fn palette_and_legend() {
    assert_eq!(bucket_rgb(Bucket::Empty), (250, 250, 210));
    assert_eq!(bucket_rgb(Bucket::Max), (34, 139, 34));
    assert_eq!(bucket_label(Bucket::Low), "2-3 contributions");
    assert_eq!(legend().len(), 6);
    assert_eq!(legend()[0], Bucket::Empty);
}

#[test]
fn row_levels() {
    let d = CivilDate { year: 2024, month: 1, day: 1 };
    let m = build_year_matrix(&vec![d; 4], 2024, CivilDate { year: 2024, month: 1, day: 20 });
    let row = m.row_buckets(0);
    assert_eq!(row.len(), m.max_week + 1);
    assert_eq!(row[0], Bucket::Mid);
    assert_eq!(row[1], Bucket::Empty);
}
