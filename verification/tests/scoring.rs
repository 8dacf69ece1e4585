use farkle::count_dice;
use farkle::get_score;
use farkle::is_of_a_kind;
use farkle::is_straight;
use farkle::is_three_pair;
use farkle::is_two_triplets;
use farkle::keep_repeats;
use farkle::strip_repeats;
use farkle::try_get_score;
use farkle::FarkleError;

#[test]
fn count_dice_maps_faces_to_multiplicities() {
    let dice: Vec<i16> = vec![1, 1, 1, 2, 2, 3];
    let counts = count_dice(&dice);
    assert_eq!(counts.count(1), 3);
    assert_eq!(counts.count(2), 2);
    assert_eq!(counts.count(3), 1);
    assert_eq!(counts.count(4), 0);
    assert_eq!(counts.count(5), 0);
    assert_eq!(counts.count(6), 0);
}

#[test]
fn count_dice_multiplicities_sum_to_length() {
    let sets: Vec<Vec<i16>> = vec![
        vec![],
        vec![4],
        vec![1, 1, 2, 2, 3, 3],
        vec![6, 6, 6, 6, 6, 6],
        vec![2, 5, 2, 5, 2],
    ];
    for dice in sets {
        let counts = count_dice(&dice);
        let mut total: i16 = 0;
        for v in 1..=6 {
            total += counts.count(v);
        }
        assert_eq!(total as usize, dice.len());
    }
}

#[test]
fn three_pair_detection() {
    assert!(is_three_pair(&vec![1, 1, 2, 2, 3, 3]));
    assert!(!is_three_pair(&vec![1, 1, 2, 2, 3, 4]));
    assert!(!is_three_pair(&vec![1, 1, 2, 2, 2, 2]));
    assert!(!is_three_pair(&vec![1, 1, 1, 1, 1, 1]));
}

#[test]
fn straight_detection() {
    assert!(is_straight(&[1, 2, 3, 4, 5, 6]));
    assert!(!is_straight(&[1, 2, 3, 4, 5, 5]));
    assert!(is_straight(&[1, 4, 2, 6, 5, 3]));
}

#[test]
fn of_a_kind_detection() {
    assert!(is_of_a_kind(6, &vec![1, 1, 1, 1, 1, 1]));
    assert!(!is_of_a_kind(6, &vec![1, 1, 1, 1, 1, 2]));
    assert!(is_of_a_kind(5, &vec![1, 1, 1, 1, 1, 2]));
    assert!(!is_of_a_kind(5, &vec![1, 1, 1, 1, 2, 2]));
    assert!(is_of_a_kind(4, &vec![1, 1, 1, 1, 2, 2]));
    assert!(!is_of_a_kind(4, &vec![1, 1, 1, 2, 2, 2]));
    assert!(is_of_a_kind(3, &vec![1, 1, 1, 2, 2, 2]));
}

#[test]
fn two_triplets_detection() {
    assert!(is_two_triplets(&vec![1, 1, 1, 2, 2, 2]));
    assert!(!is_two_triplets(&vec![1, 1, 1, 2, 2, 3]));
    assert!(!is_two_triplets(&vec![1, 1, 1, 1, 2, 2]));
    // Three pairs are pairs, not triplets.
    assert!(!is_two_triplets(&vec![1, 1, 2, 2, 3, 3]));
}

#[test]
fn classification_is_order_independent() {
    // Two permutations of the same multiset get the same verdicts.
    let a: Vec<i16> = vec![1, 1, 2, 2, 3, 3];
    let b: Vec<i16> = vec![3, 1, 2, 3, 1, 2];
    assert_eq!(is_three_pair(&a), is_three_pair(&b));
    assert_eq!(is_two_triplets(&a), is_two_triplets(&b));
    assert_eq!(is_straight(&a), is_straight(&b));
    for n in 3..=6 {
        assert_eq!(is_of_a_kind(n, &a), is_of_a_kind(n, &b));
    }
    assert_eq!(get_score(&a), get_score(&b));

    let c: Vec<i16> = vec![4, 4, 4, 4, 1, 5];
    let d: Vec<i16> = vec![5, 1, 4, 4, 4, 4];
    assert_eq!(get_score(&c), get_score(&d));
}

#[test]
fn strip_repeats_removes_groups() {
    assert_eq!(strip_repeats(&vec![1, 1, 1, 2, 2, 2]), Vec::<i16>::new());
    assert_eq!(strip_repeats(&vec![1, 1, 1, 2, 2, 3]), vec![2, 2, 3]);
    assert_eq!(strip_repeats(&vec![1, 1, 1, 1, 2, 2]), vec![2, 2]);
}

#[test]
fn strip_repeats_preserves_input_order() {
    // The result is a sub-sequence: the surviving dice keep their order.
    assert_eq!(strip_repeats(&vec![3, 2]), vec![3, 2]);
    assert_eq!(strip_repeats(&vec![5, 1, 1, 1, 2]), vec![5, 2]);
    assert_eq!(strip_repeats(&vec![6, 4, 4, 6, 2, 2]), vec![6, 4, 4, 6, 2, 2]);
}

#[test]
fn keep_repeats_keeps_groups() {
    assert_eq!(keep_repeats(&vec![1, 1, 1, 2, 2, 3]), vec![1, 1, 1]);
    assert_eq!(keep_repeats(&vec![1, 1, 1, 1, 2, 2]), vec![1, 1, 1, 1]);
    assert_eq!(keep_repeats(&vec![1, 1, 1, 2, 2, 2]), vec![1, 1, 1, 2, 2, 2]);
}

#[test]
fn keep_repeats_preserves_input_order() {
    // The result is a sub-sequence: the kept dice keep their order.
    assert_eq!(keep_repeats(&vec![2, 2, 2, 1, 1, 1]), vec![2, 2, 2, 1, 1, 1]);
    assert_eq!(keep_repeats(&vec![5, 4, 5, 4, 5, 1]), vec![5, 5, 5]);
    assert_eq!(keep_repeats(&vec![2, 3, 2, 3, 2, 3]), vec![2, 3, 2, 3, 2, 3]);
}

#[test]
fn stripped_dice_never_reclassify_as_groups() {
    let sets: Vec<Vec<i16>> = vec![
        vec![1, 1, 1, 2, 2, 3],
        vec![4, 4, 4, 4, 1, 5],
        vec![1, 1, 2, 2, 3, 3],
        vec![5, 5, 5, 5, 5, 5],
    ];
    for dice in sets {
        let stripped = strip_repeats(&dice);
        assert!(!is_of_a_kind(3, &stripped));
        assert!(!is_two_triplets(&stripped));
        // Stripping is idempotent: nothing further to remove.
        assert_eq!(strip_repeats(&stripped), stripped);
    }
}

#[test]
fn score_table_fixtures() {
    assert_eq!(get_score(&vec![1, 1, 1, 2, 2, 2]), 2500);
    assert_eq!(get_score(&vec![1, 2, 3, 4, 5, 6]), 1500);
    assert_eq!(get_score(&vec![1, 1, 2, 2, 3, 3]), 1500);
    assert_eq!(get_score(&vec![1, 1, 1, 1, 1, 1]), 5000);
    assert_eq!(get_score(&vec![1, 1, 1, 1, 1]), 3000);
    assert_eq!(get_score(&vec![1, 1, 1, 1]), 2000);
    assert_eq!(get_score(&vec![1, 1, 1]), 1000);
    assert_eq!(get_score(&vec![2, 2, 2]), 200);
    assert_eq!(get_score(&vec![1, 1, 1, 5, 5]), 1100);
    assert_eq!(get_score(&vec![1, 1, 5, 5, 5]), 700);
    assert_eq!(get_score(&vec![2, 3, 4, 6]), 0);
}

#[test]
fn score_mixes_group_and_leftovers() {
    assert_eq!(get_score(&vec![1, 1, 1, 5]), 1050);
    assert_eq!(get_score(&vec![1, 1, 5]), 250);
    assert_eq!(get_score(&vec![4, 4, 4, 4, 1, 5]), 2150);
    assert_eq!(get_score(&vec![5, 5, 5]), 500);
    assert_eq!(get_score(&vec![]), 0);
    assert_eq!(get_score(&vec![5]), 50);
}

#[test]
fn score_is_deterministic_and_non_negative() {
    let sets: Vec<Vec<i16>> = vec![
        vec![],
        vec![2],
        vec![2, 3, 4, 6],
        vec![1, 1, 1, 2, 2, 2],
        vec![6, 6, 6, 6, 6, 6],
        vec![5, 5, 2, 3, 4, 4],
    ];
    for dice in sets {
        let first = get_score(&dice);
        let second = get_score(&dice);
        assert_eq!(first, second);
        assert!(first >= 0);
    }
}

#[test]
fn try_get_score_accepts_the_domain() {
    assert_eq!(try_get_score(&vec![1, 1, 1]), Ok(1000));
    assert_eq!(try_get_score(&vec![]), Ok(0));
}

#[test]
fn try_get_score_rejects_out_of_domain_input() {
    // Seven dice are one too many.
    assert_eq!(
        try_get_score(&vec![1, 1, 1, 2, 2, 2, 3]),
        Err(FarkleError::InvalidInput)
    );
    // Faces outside 1..=6 are rejected.
    assert_eq!(try_get_score(&vec![1, 7, 2]), Err(FarkleError::InvalidInput));
    assert_eq!(try_get_score(&vec![0]), Err(FarkleError::InvalidInput));
    assert_eq!(try_get_score(&vec![-3]), Err(FarkleError::InvalidInput));
}
