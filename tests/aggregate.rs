use rapid_scan::aggregate::{update_data, Dataset, MergeError, RawDataset, VoltagePoint};

/// Intensities are held in ten-thousandths.
const SCALE: f32 = 10000.0;

fn bin(x: i32, mean: f32, len: u64) -> RawDataset {
    RawDataset::new(x, (mean * len as f32 * SCALE).round() as i128, len)
}

fn mean_of(b: &RawDataset) -> f32 {
    b.sum() as f32 / (b.len() as f32 * SCALE)
}

fn scaled(v: &[f32]) -> Vec<i32> {
    v.iter().map(|y| (y * SCALE).round() as i32).collect()
}

fn merge_reference_batch() -> Dataset {
    let x = vec![0, 1, 2, 3, 4];
    let y = scaled(&[0.0, 1.0, 4.0, 9.0, 16.0]);
    let mut dataset =
        Dataset::from_bins(vec![bin(0, 0.01, 1), bin(2, 4.5, 2), bin(4, 15.8, 1)]).unwrap();
    update_data(&x, &y, &mut dataset, 5).unwrap();
    dataset
}

fn check_reference_batch(dataset: &Dataset) {
    let bins = dataset.entries();
    let xx = vec![0, 1, 2, 3, 4];
    let yy: Vec<f32> = vec![0.005, 1.0, 13.0 / 3.0, 9.0, 15.9];
    let cc = vec![2, 1, 3, 1, 2];
    assert_eq!(bins.len(), 5);
    for i in 0..5 {
        assert_eq!(bins[i].x(), xx[i]);
        assert_eq!(mean_of(&bins[i]), yy[i]);
        assert_eq!(bins[i].len(), cc[i]);
    }
}

#[test]
fn test_update_data() {
    let dataset = merge_reference_batch();
    check_reference_batch(&dataset);
}

#[test]
fn helper_test_update_data() {
    let dataset = merge_reference_batch();
    check_reference_batch(&dataset);
    assert_eq!(dataset.merged_samples(), 9);
}

#[test]
fn merge_keeps_keys_sorted_and_unique() {
    let x = vec![7, -3, 7, 0, -3, 12, 0, 7];
    let y = vec![1, 2, 3, 4, 5, 6, 7, 8];
    let mut dataset = Dataset::new();
    update_data(&x, &y, &mut dataset, x.len()).unwrap();
    let keys: Vec<i32> = dataset.entries().iter().map(|b| b.x()).collect();
    assert_eq!(keys, vec![-3, 0, 7, 12]);
    let totals: Vec<i128> = dataset.entries().iter().map(|b| b.sum()).collect();
    assert_eq!(totals, vec![7, 11, 12, 6]);
    let counts: Vec<u64> = dataset.entries().iter().map(|b| b.len()).collect();
    assert_eq!(counts, vec![2, 2, 3, 1]);
}

#[test]
fn merge_running_mean_over_two_batches() {
    let mut dataset = Dataset::new();
    update_data(&vec![4], &vec![16], &mut dataset, 1).unwrap();
    update_data(&vec![4, 4], &vec![9, 16], &mut dataset, 2).unwrap();
    let b = dataset.entries()[0];
    assert_eq!((b.x(), b.sum(), b.len()), (4, 41, 3));
}

#[test]
fn merge_only_first_length_pairs() {
    let mut dataset = Dataset::new();
    update_data(&vec![1, 2, 3], &vec![10, 20, 30], &mut dataset, 2).unwrap();
    let keys: Vec<i32> = dataset.entries().iter().map(|b| b.x()).collect();
    assert_eq!(keys, vec![1, 2]);
}

#[test]
fn merge_empty_batch_changes_nothing() {
    let mut dataset = Dataset::from_bins(vec![bin(0, 0.01, 1), bin(2, 4.5, 2)]).unwrap();
    let before: Vec<RawDataset> = dataset.entries().clone();
    assert_eq!(update_data(&vec![], &vec![], &mut dataset, 0), Ok(()));
    assert_eq!(dataset.entries(), &before);
    assert_eq!(dataset.merged_samples(), 3);
}

#[test]
fn merge_refuses_short_batch() {
    let mut dataset = Dataset::new();
    let r = update_data(&vec![1, 2, 3], &vec![1, 2], &mut dataset, 3);
    assert_eq!(r, Err(MergeError::ShortBatch));
    assert!(dataset.entries().is_empty());
}

#[test]
fn merge_refuses_saturated_dataset() {
    let mut dataset = Dataset::from_bins(vec![RawDataset::new(5, 0, u64::MAX)]).unwrap();
    let r = update_data(&vec![5], &vec![1], &mut dataset, 1);
    assert_eq!(r, Err(MergeError::Saturated));
    assert_eq!(dataset.entries()[0].len(), u64::MAX);
}

#[test]
fn extreme_samples_are_held_exactly() {
    let mut dataset = Dataset::new();
    update_data(&vec![i32::MIN, i32::MIN], &vec![i32::MIN, i32::MIN], &mut dataset, 2).unwrap();
    let b = dataset.entries()[0];
    assert_eq!(b.sum(), 2 * i32::MIN as i128);
}

#[test]
fn from_bins_refuses_bad_bins() {
    let unsorted = vec![RawDataset::new(2, 1, 1), RawDataset::new(1, 1, 1)];
    assert_eq!(Dataset::from_bins(unsorted).err(), Some(MergeError::InvalidBins));
    let duplicate = vec![RawDataset::new(1, 1, 1), RawDataset::new(1, 1, 1)];
    assert_eq!(Dataset::from_bins(duplicate).err(), Some(MergeError::InvalidBins));
    let empty_bin = vec![RawDataset::new(1, 0, 0)];
    assert_eq!(Dataset::from_bins(empty_bin).err(), Some(MergeError::InvalidBins));
    let impossible = vec![RawDataset::new(1, 1i128 << 40, 1)];
    assert_eq!(Dataset::from_bins(impossible).err(), Some(MergeError::InvalidBins));
    let too_many = vec![RawDataset::new(1, 0, u64::MAX), RawDataset::new(2, 0, 1)];
    assert_eq!(Dataset::from_bins(too_many).err(), Some(MergeError::InvalidBins));
}

#[test]
fn snapshot_gives_voltages() {
    let mut dataset = Dataset::new();
    update_data(&vec![1000, 1000], &vec![500, 501], &mut dataset, 2).unwrap();
    let points = dataset.snapshot((0, 4));
    // position 1000 on ±10 V: 1000 * 80 - 80 * 32768 ticks
    // mean 500.5 on 0..10 V: (1001 * 40) / 2 ticks
    assert_eq!(points, vec![VoltagePoint { x: 80000 - 2621440, y: 1001 * 40, per: 2 }]);
    let x_volts = points[0].x as f32 / 262144.0;
    assert_eq!(x_volts, 1000.0 * 20.0 / 2f32.powf(16.0) - 10.0);
}
