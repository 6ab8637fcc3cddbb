use warehouse_nav::error::WarehouseError;
use warehouse_nav::pods::{
    all_pods, available_pods, is_assigned, is_index_in_queue, is_queued, pod_for_draw, pod_row,
    random_pod,
};
use warehouse_nav::position::Pos;

fn p(x: i32, y: i32) -> Pos {
    Pos::new(x, y)
}

fn every_pod() -> Vec<Pos> {
    let mut pods = Vec::new();
    for y in [0, 2, 4, 6, 8] {
        for x in 0..6 {
            pods.push(p(x, y));
        }
    }
    pods
}

#[test]
fn a_pod_row_has_six_pods_from_the_left() {
    assert_eq!(
        pod_row(4),
        vec![p(0, 4), p(1, 4), p(2, 4), p(3, 4), p(4, 4), p(5, 4)]
    );
}

#[test]
fn the_pool_lists_thirty_pods_row_by_row() {
    let pods = all_pods();
    assert_eq!(pods.len(), 30);
    assert_eq!(pods, every_pod());
    assert_eq!(pods[0], p(0, 0));
    assert_eq!(pods[7], p(1, 2));
    assert_eq!(pods[29], p(5, 8));
    assert_eq!(all_pods(), pods);
}

#[test]
fn wrapped_queue_occupies_both_ends() {
    for i in [8, 9, 0, 1] {
        assert!(is_index_in_queue(i, 10, 8, 2));
    }
    for i in 2..8 {
        assert!(!is_index_in_queue(i, 10, 8, 2));
    }
    assert!(!is_index_in_queue(10, 10, 8, 2));
}

#[test]
fn plain_queue_occupies_one_stretch() {
    for i in 0..10 {
        assert_eq!(is_index_in_queue(i, 10, 3, 7), (3..7).contains(&i));
    }
    assert!(!is_index_in_queue(4, 4, 3, 7));
    assert!(is_index_in_queue(3, 4, 3, 7));
}

#[test]
fn queue_with_equal_ends_is_empty() {
    for i in 0..10 {
        assert!(!is_index_in_queue(i, 10, 4, 4));
        assert!(!is_index_in_queue(i, 10, 0, 0));
    }
}

#[test]
fn wrapped_and_plain_queues_agree_on_the_walk() {
    for capacity in 1..9usize {
        for start in 0..capacity {
            for end in 0..capacity {
                let count = (end + capacity - start) % capacity;
                let mut walked = vec![false; capacity];
                for k in 0..count {
                    walked[(start + k) % capacity] = true;
                }
                for i in 0..capacity {
                    assert_eq!(
                        is_index_in_queue(i, capacity, start as i32, end as i32),
                        walked[i]
                    );
                }
            }
        }
    }
}

#[test]
fn the_sentinel_claims_nothing() {
    let robots = [p(-1, -1), p(2, 4), p(-1, -1)];
    assert!(is_assigned(&p(2, 4), &robots));
    assert!(!is_assigned(&p(3, 4), &robots));
    assert!(!is_assigned(&p(-1, -1), &robots));
    assert!(!is_assigned(&p(2, 4), &[]));
}

#[test]
fn only_occupied_slots_queue_a_pod() {
    let queue = [p(0, 0), p(1, 0), p(2, 0), p(3, 0), p(4, 0)];
    assert!(is_queued(&p(1, 0), &queue, 1, 3));
    assert!(is_queued(&p(2, 0), &queue, 1, 3));
    assert!(!is_queued(&p(0, 0), &queue, 1, 3));
    assert!(!is_queued(&p(3, 0), &queue, 1, 3));
    assert!(is_queued(&p(4, 0), &queue, 4, 1));
    assert!(is_queued(&p(0, 0), &queue, 4, 1));
    assert!(!is_queued(&p(1, 0), &queue, 4, 1));
    assert!(!is_queued(&p(5, 0), &queue, 0, 5));
}

#[test]
fn claimed_pods_leave_the_pool_in_order() {
    let robots = [p(0, 0), p(-1, -1), p(5, 8)];
    let queue = [p(1, 0), p(2, 0), p(3, 0), p(4, 0)];
    let left = available_pods(&robots, &queue, 3, 1);
    let mut want = every_pod();
    want.retain(|q| ![p(0, 0), p(5, 8), p(4, 0), p(1, 0)].contains(q));
    assert_eq!(left.len(), 26);
    assert_eq!(left, want);
    assert_eq!(left[0], p(2, 0));
}

#[test]
fn nothing_claimed_leaves_the_whole_pool() {
    assert_eq!(available_pods(&[], &[], 0, 0), every_pod());
    assert_eq!(available_pods(&[p(-1, -1)], &[p(0, 0)], 0, 0), every_pod());
    assert_eq!(available_pods(&[p(7, 7)], &[p(0, 1)], 0, 1), every_pod());
}

#[test]
fn a_draw_picks_by_place_and_runs_round() {
    let left = vec![p(2, 0), p(4, 2), p(0, 8)];
    assert_eq!(pod_for_draw(&left, 0), Ok(p(2, 0)));
    assert_eq!(pod_for_draw(&left, 1), Ok(p(4, 2)));
    assert_eq!(pod_for_draw(&left, 2), Ok(p(0, 8)));
    assert_eq!(pod_for_draw(&left, 3), Ok(p(2, 0)));
    assert_eq!(pod_for_draw(&left, 7), Ok(p(4, 2)));
}

#[test]
fn a_draw_from_nothing_fails() {
    assert_eq!(pod_for_draw(&Vec::new(), 0), Err(WarehouseError::NoPodsAvailable));
    assert_eq!(pod_for_draw(&Vec::new(), 5), Err(WarehouseError::NoPodsAvailable));
}

#[test]
fn random_pod_avoids_every_claim() {
    let robots = [p(0, 0), p(-1, -1), p(3, 2), p(5, 8)];
    let queue = [p(1, 0), p(2, 0), p(3, 0), p(4, 0), p(5, 0), p(0, 2)];
    let taken = [p(0, 0), p(3, 2), p(5, 8), p(5, 0), p(0, 2), p(1, 0)];
    let pool = every_pod();
    for _ in 0..500 {
        let pod = random_pod(&robots, &queue, 4, 1).unwrap();
        assert!(pool.contains(&pod));
        assert!(!taken.contains(&pod));
    }
}

#[test]
fn random_pod_fails_when_all_are_claimed() {
    let pool = every_pod();
    assert_eq!(
        random_pod(&pool, &[], 0, 0),
        Err(WarehouseError::NoPodsAvailable)
    );
    assert_eq!(
        random_pod(&[], &pool, 0, 30),
        Err(WarehouseError::NoPodsAvailable)
    );
    assert_eq!(
        random_pod(&pool[..10], &pool, 10, 30),
        Err(WarehouseError::NoPodsAvailable)
    );
}

#[test]
fn random_pod_finds_the_last_free_pod() {
    let mut pool = every_pod();
    let last = pool.remove(17);
    for _ in 0..20 {
        assert_eq!(random_pod(&pool, &[], 0, 0), Ok(last));
    }
}

#[test]
fn random_pod_reaches_more_than_one_pod() {
    let first = random_pod(&[], &[], 0, 0).unwrap();
    let mut other = false;
    for _ in 0..400 {
        if random_pod(&[], &[], 0, 0).unwrap() != first {
            other = true;
        }
    }
    assert!(other);
}
