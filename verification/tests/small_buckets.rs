use lib::human_paired::Bucket as PairedBucket;
use lib::human_train::Bucket as TrainBucket;

#[test]
fn paired_bucket_counts_each_predictor_separately() {
    let mut b = PairedBucket::default();
    b.add(true, false);
    b.add(true, true);
    b.add(false, false);
    assert_eq!((b.n, b.human_correct, b.weighted_correct), (3, 2, 1));
}

#[test]
fn train_bucket_counts_hits_out_of_total() {
    let mut b = TrainBucket::default();
    b.hit(false);
    b.hit(true);
    assert_eq!((b.correct, b.total), (1, 2));
}
