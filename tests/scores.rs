use snake::score::{
    check_score, create_empty_name, normalize_scores, record_score, update_scores, Score,
    ScoreBuilder, MAX_NAME_LENGTH, NUMBER_HIGH_SCORES,
};

fn table(points: &[i32]) -> Vec<Score> {
    points.iter().map(|p| ScoreBuilder::default().player("P").score(*p).build()).collect()
}

fn points(scores: &[Score]) -> Vec<i32> {
    scores.iter().map(|s| s.score()).collect()
}

#[test]
fn builder_defaults_and_setters() {
    let s = Score::builder().build();
    assert_eq!(s.player(), "default");
    assert_eq!(s.score(), 0);
    assert!(s.timestamp() > 1_500_000_000);
    let t = ScoreBuilder::default().player("ANN").score(42).timestamp(1_000).build();
    assert_eq!(t.player(), "ANN");
    assert_eq!(t.score(), 42);
    assert_eq!(t.timestamp(), 1_000);
}

#[test]
fn check_score_ranks() {
    let scores = table(&[9, 7, 7, 4, 1]);
    assert_eq!(check_score(10, &scores), Some(0));
    assert_eq!(check_score(8, &scores), Some(1));
    assert_eq!(check_score(7, &scores), Some(3));
    assert_eq!(check_score(1, &scores), None);
    assert_eq!(check_score(0, &scores), None);
    assert_eq!(check_score(2, &scores), Some(4));
    assert_eq!(check_score(5, &Vec::new()), None);
}

#[test]
fn update_scores_drops_the_lowest() {
    let mut scores = table(&[9, 7, 4]);
    update_scores(1, ScoreBuilder::default().score(8).build(), &mut scores);
    assert_eq!(points(&scores), vec![9, 8, 7]);
    update_scores(NUMBER_HIGH_SCORES + 1, ScoreBuilder::default().score(99).build(), &mut scores);
    assert_eq!(points(&scores), vec![9, 8, 7]);
    let mut empty = Vec::new();
    update_scores(0, ScoreBuilder::default().score(3).build(), &mut empty);
    assert_eq!(points(&empty), vec![3]);
}

#[test]
fn normalize_pads_with_defaults() {
    let scores = normalize_scores(table(&[5, 2]));
    assert_eq!(scores.len(), NUMBER_HIGH_SCORES);
    assert_eq!(scores[0].score(), 5);
    assert_eq!(scores[1].score(), 2);
    for s in &scores[2..] {
        assert_eq!(s.player(), "default");
        assert_eq!(s.score(), 0);
    }
}

#[test]
fn normalize_cuts_long_tables() {
    let long: Vec<i32> = (0..15).rev().collect();
    let scores = normalize_scores(table(&long));
    assert_eq!(points(&scores), (5..15).rev().collect::<Vec<i32>>());
}

#[test]
fn record_score_when_it_ranks() {
    let mut scores = table(&[9, 7, 4]);
    assert!(record_score(&mut scores, "NEW", 8));
    assert_eq!(points(&scores), vec![9, 8, 7]);
    assert_eq!(scores[1].player(), "NEW");
    assert!(!record_score(&mut scores, "LOW", 7));
    assert_eq!(points(&scores), vec![9, 8, 7]);
}

#[test]
fn empty_name_is_empty() {
    let n = create_empty_name();
    assert_eq!(n, "");
    assert!(n.capacity() >= MAX_NAME_LENGTH);
}
