use launcher::{combine_scores, order_matches};

#[test]
fn name_result_is_weighted_five_times() {
    assert_eq!(combine_scores(Some(10), &vec![None, Some(3)]), Some(53));
    assert_eq!(combine_scores(Some(7), &vec![]), Some(35));
    assert_eq!(combine_scores(None, &vec![Some(7)]), Some(7));
}

#[test]
fn nothing_matched_gives_no_score() {
    assert_eq!(combine_scores(None, &vec![]), None);
    assert_eq!(combine_scores(None, &vec![None, None]), None);
}

#[test]
fn zero_scores_still_count_as_matches() {
    assert_eq!(combine_scores(Some(0), &vec![None]), Some(0));
    assert_eq!(combine_scores(None, &vec![None, Some(0)]), Some(0));
}

#[test]
fn largest_scores_do_not_overflow() {
    let m = u32::MAX;
    let expected = 5 * m as u128 + 2 * m as u128;
    assert_eq!(combine_scores(Some(m), &vec![Some(m), Some(m)]), Some(expected));
}

#[test]
fn order_puts_best_first_and_keeps_ties_in_order() {
    let scores = vec![Some(2), None, Some(7), Some(2), Some(9), None];
    assert_eq!(order_matches(&scores), vec![4, 2, 0, 3]);
}

#[test]
fn order_of_nothing_is_empty() {
    assert!(order_matches(&vec![]).is_empty());
    assert!(order_matches(&vec![None, None]).is_empty());
}
