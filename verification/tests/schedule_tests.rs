use memwalk::schedule::effective_max_step_size;
use memwalk::schedule::first_step_size;
use memwalk::schedule::next_step_size;
use memwalk::schedule::step_sizes;

#[test]
fn strides_double_up_to_and_including_the_maximum() {
    assert_eq!(step_sizes(1, 4), vec![1, 2, 4]);
    assert_eq!(step_sizes(1, 5), vec![1, 2, 4]);
    assert_eq!(step_sizes(1, 7), vec![1, 2, 4]);
    assert_eq!(step_sizes(1, 8), vec![1, 2, 4, 8]);
    assert_eq!(step_sizes(3, 20), vec![3, 6, 12]);
    assert_eq!(step_sizes(6, 6), vec![6]);
}

#[test]
fn no_trial_where_the_initial_size_exceeds_the_maximum() {
    assert_eq!(step_sizes(5, 4), Vec::<usize>::new());
    assert_eq!(step_sizes(1, 0), Vec::<usize>::new());
    assert_eq!(first_step_size(5, 4), None);
}

#[test]
fn no_trial_for_an_initial_size_of_zero() {
    assert_eq!(step_sizes(0, 10), Vec::<usize>::new());
    assert_eq!(first_step_size(0, 10), None);
    assert_eq!(next_step_size(0, 10), None);
}

#[test]
fn doubling_stops_before_the_word_overflows() {
    let all = step_sizes(1, usize::MAX);
    assert_eq!(all.len(), usize::BITS as usize);
    assert_eq!(all[all.len() - 1], 1usize << (usize::BITS - 1));
    assert_eq!(step_sizes(usize::MAX, usize::MAX), vec![usize::MAX]);
    assert_eq!(next_step_size(usize::MAX / 2 + 1, usize::MAX), None);
    assert_eq!(next_step_size(usize::MAX / 2, usize::MAX), Some(usize::MAX - 1));
}

#[test]
fn first_and_next_step_size() {
    assert_eq!(first_step_size(1, 4), Some(1));
    assert_eq!(first_step_size(4, 4), Some(4));
    assert_eq!(next_step_size(1, 4), Some(2));
    assert_eq!(next_step_size(2, 4), Some(4));
    assert_eq!(next_step_size(4, 4), None);
    assert_eq!(next_step_size(3, 5), None);
}

#[test]
fn maximum_defaults_to_the_buffer_size() {
    assert_eq!(effective_max_step_size(None, 1024), 1024);
    assert_eq!(effective_max_step_size(Some(4), 1024), 4);
    assert_eq!(effective_max_step_size(Some(4096), 1024), 4096);
}
