//! The pod pool and the choice of a pod that nobody has claimed yet.

use vstd::prelude::*;
use vstd::arithmetic::div_mod::{lemma_mod_add_multiples_vanish, lemma_small_mod};
use crate::error::WarehouseError;
use crate::grid::{is_storage_row, LAST_POD_ROW, POD_COLUMNS};
use crate::position::{points, sentinel, Point, Pos};

verus! {

/// The cell holds a pod: it lies in a storage row, in a storage column.
pub open spec fn is_pod(p: Point) -> bool {
    is_storage_row(p.y) && 0 <= p.x < POD_COLUMNS
}

/// The pods of row `r`, from column 0 rightwards.
pub open spec fn storage_row(r: int) -> Seq<Point> {
    Seq::new(POD_COLUMNS as nat, |c: int| Point { x: c, y: r })
}

/// The pods of the first `rows` storage rows, row after row from the top.
pub open spec fn pods_in_rows(rows: nat) -> Seq<Point>
    decreases rows,
{
    if rows == 0 {
        Seq::empty()
    } else {
        pods_in_rows((rows - 1) as nat) + storage_row(2 * (rows - 1))
    }
}

/// The number of storage rows in the layout.
pub open spec fn storage_rows() -> nat {
    (LAST_POD_ROW / 2 + 1) as nat
}

/// Every pod of the warehouse, in the order in which the pool lists them.
pub open spec fn pool() -> Seq<Point> {
    pods_in_rows(storage_rows())
}

/// The pods of row `r`, from column 0 rightwards.
pub fn pod_row(r: i32) -> (row: Vec<Pos>)
    ensures
        points(row@) == storage_row(r as int),
        row@.len() == POD_COLUMNS,
{
    let mut row: Vec<Pos> = Vec::new();
    let mut c: i32 = 0;
    while c < POD_COLUMNS
        invariant
            0 <= c <= POD_COLUMNS,
            row@.len() == c,
            forall|k: int| 0 <= k < c ==> (#[trigger] row@[k])@ == (Point { x: k, y: r as int }),
        decreases POD_COLUMNS - c,
    {
        row.push(Pos::new(c, r));
        c += 1;
    }
    row
}

/// Every pod of the warehouse, row after row from the top, each row from
/// column 0 rightwards. The order is the same on every call.
pub fn all_pods() -> (pods: Vec<Pos>)
    ensures
        points(pods@) == pool(),
        pods@.len() == pool().len(),
{
    let mut pods: Vec<Pos> = Vec::new();
    let mut r: i32 = 0;
    while r <= LAST_POD_ROW
        invariant
            0 <= r <= LAST_POD_ROW + 2,
            r % 2 == 0,
            points(pods@) == pods_in_rows((r / 2) as nat),
        decreases LAST_POD_ROW + 2 - r,
    {
        let mut row = pod_row(r);
        pods.append(&mut row);
        r += 2;
    }
    pods
}

/// The place of a pod in the pool: rows count six pods each.
pub open spec fn pool_index(p: Point) -> int {
    (p.y / 2) * POD_COLUMNS + p.x
}

/// The first `rows` storage rows hold six pods each, and the pod at place
/// `i` stands in column `i % 6` of row `2 * (i / 6)`.
pub proof fn lemma_pods_in_rows(rows: nat)
    ensures
        pods_in_rows(rows).len() == rows * POD_COLUMNS,
        forall|i: int|
            0 <= i < rows * POD_COLUMNS ==> #[trigger] pods_in_rows(rows)[i] == (Point {
                x: i % (POD_COLUMNS as int),
                y: 2 * (i / (POD_COLUMNS as int)),
            }),
    decreases rows,
{
    if rows > 0 {
        lemma_pods_in_rows((rows - 1) as nat);
    }
}

/// The pool lists each pod of the layout exactly once: a cell is in the pool
/// if and only if it holds a pod, and then it stands at its `pool_index` and
/// nowhere else.
pub proof fn lemma_pool_is_the_pods()
    ensures
        pool().len() == storage_rows() * POD_COLUMNS,
        forall|p: Point| #[trigger] pool().contains(p) <==> is_pod(p),
        forall|i: int| 0 <= i < pool().len() ==> pool_index(#[trigger] pool()[i]) == i,
        pool().no_duplicates(),
{
    lemma_pods_in_rows(storage_rows());
    assert forall|p: Point| #[trigger] pool().contains(p) <==> is_pod(p) by {
        if is_pod(p) {
            assert(pool()[pool_index(p)] == p);
        }
    }
}

/// Slot `i` of a ring buffer with `capacity` slots holds a queued entry. The
/// entries run from `start` up to, not including, `end`; where `start` lies
/// behind `end` they run on from the last slot to slot 0.
pub open spec fn slot_occupied(i: int, capacity: int, start: int, end: int) -> bool {
    0 <= i < capacity && if start <= end {
        start <= i < end
    } else {
        i < end || start <= i
    }
}

/// The distance from slot `from` forward to slot `to` in a ring of
/// `capacity` slots, counted round the end of the buffer.
pub open spec fn ring_distance(from: int, to: int, capacity: int) -> int {
    (to - from) % capacity
}

/// A distance between two slots of the ring is the plain difference, or the
/// difference plus one turn where the walk passes the end of the buffer.
proof fn lemma_ring_distance(from: int, to: int, capacity: int)
    requires
        0 <= from < capacity,
        0 <= to < capacity,
    ensures
        ring_distance(from, to, capacity) == if from <= to {
            to - from
        } else {
            to - from + capacity
        },
{
    if from <= to {
        lemma_small_mod((to - from) as nat, capacity as nat);
    } else {
        lemma_mod_add_multiples_vanish(to - from, capacity);
        lemma_small_mod((to - from + capacity) as nat, capacity as nat);
    }
}

/// Wrapped or not, the occupied slots are one stretch of the ring: a slot is
/// occupied exactly when it lies fewer steps ahead of `start` than `end`
/// does. So a buffer whose entries run past its last slot and on from slot 0
/// is read just as one whose entries lie in a row.
pub proof fn lemma_occupied_is_ring_stretch(i: int, capacity: int, start: int, end: int)
    requires
        0 <= start < capacity,
        0 <= end < capacity,
    ensures
        slot_occupied(i, capacity, start, end) <==> 0 <= i < capacity && ring_distance(
            start,
            i,
            capacity,
        ) < ring_distance(start, end, capacity),
{
    lemma_ring_distance(start, end, capacity);
    if 0 <= i < capacity {
        lemma_ring_distance(start, i, capacity);
    }
}

/// The queued entries stand in a row round the ring: for every `k` below the
/// distance from `start` to `end`, the slot `k` steps ahead of `start` is
/// occupied, and every occupied slot is found by such a walk.
pub proof fn lemma_occupied_slots_in_order(capacity: int, start: int, end: int)
    requires
        0 <= start < capacity,
        0 <= end < capacity,
    ensures
        forall|k: int|
            0 <= k < ring_distance(start, end, capacity) ==> slot_occupied(
                #[trigger] ((start + k) % capacity),
                capacity,
                start,
                end,
            ),
        forall|i: int| #[trigger]
            slot_occupied(i, capacity, start, end) ==> i == (start + ring_distance(
                start,
                i,
                capacity,
            )) % capacity,
{
    lemma_ring_distance(start, end, capacity);
    assert forall|k: int| 0 <= k < ring_distance(start, end, capacity) implies slot_occupied(
        #[trigger] ((start + k) % capacity),
        capacity,
        start,
        end,
    ) by {
        if start + k < capacity {
            lemma_small_mod((start + k) as nat, capacity as nat);
        } else {
            lemma_mod_add_multiples_vanish(start + k - capacity, capacity);
            lemma_small_mod((start + k - capacity) as nat, capacity as nat);
        }
    }
    assert forall|i: int| #[trigger] slot_occupied(i, capacity, start, end) implies i == (start
        + ring_distance(start, i, capacity)) % capacity by {
        lemma_ring_distance(start, i, capacity);
        if start <= i {
            lemma_small_mod(i as nat, capacity as nat);
        } else {
            lemma_mod_add_multiples_vanish(i, capacity);
            lemma_small_mod(i as nat, capacity as nat);
        }
    }
}

/// Some robot has the pod as its task. The sentinel in a robot's slot means
/// that the robot has no task, and claims nothing.
pub open spec fn assigned(p: Point, robot_tasks: Seq<Point>) -> bool {
    p != sentinel() && robot_tasks.contains(p)
}

/// The pod stands in an occupied slot of the task queue's ring buffer.
pub open spec fn queued(p: Point, task_queue: Seq<Point>, start: int, end: int) -> bool {
    exists|i: int|
        slot_occupied(i, task_queue.len() as int, start, end) && #[trigger] task_queue[i] == p
}

/// The pod is taken: a robot works on it, or a task for it is waiting.
pub open spec fn claimed(
    p: Point,
    robot_tasks: Seq<Point>,
    task_queue: Seq<Point>,
    start: int,
    end: int,
) -> bool {
    assigned(p, robot_tasks) || queued(p, task_queue, start, end)
}

/// The test that keeps the pods which nobody has claimed.
pub open spec fn unclaimed(
    robot_tasks: Seq<Point>,
    task_queue: Seq<Point>,
    start: int,
    end: int,
) -> spec_fn(Point) -> bool {
    |p: Point| !claimed(p, robot_tasks, task_queue, start, end)
}

/// The pods of the pool that nobody has claimed, in pool order.
pub open spec fn available(
    robot_tasks: Seq<Point>,
    task_queue: Seq<Point>,
    start: int,
    end: int,
) -> Seq<Point> {
    pool().filter(unclaimed(robot_tasks, task_queue, start, end))
}

/// Tells whether slot `i` of a ring buffer with `capacity` slots lies in the
/// occupied stretch from `start` to `end`.
pub fn is_index_in_queue(i: usize, capacity: usize, start: i32, end: i32) -> (b: bool)
    ensures
        b == slot_occupied(i as int, capacity as int, start as int, end as int),
{
    if i >= capacity {
        return false;
    }
    let i = i as i128;
    let start = start as i128;
    let end = end as i128;
    if start <= end {
        start <= i && i < end
    } else {
        i < end || start <= i
    }
}

/// Tells whether some robot has `pod` as its task.
pub fn is_assigned(pod: &Pos, robot_tasks: &[Pos]) -> (b: bool)
    ensures
        b == assigned(pod@, points(robot_tasks@)),
{
    if pod.x == -1 && pod.y == -1 {
        return false;
    }
    let mut k: usize = 0;
    while k < robot_tasks.len()
        invariant
            k <= robot_tasks@.len(),
            pod@ != sentinel(),
            forall|m: int| 0 <= m < k ==> (#[trigger] robot_tasks@[m])@ != pod@,
        decreases robot_tasks@.len() - k,
    {
        if robot_tasks[k] == *pod {
            assert(points(robot_tasks@)[k as int] == pod@);
            return true;
        }
        k += 1;
    }
    false
}

/// Tells whether `pod` stands in an occupied slot of the task queue.
pub fn is_queued(pod: &Pos, task_queue: &[Pos], start: i32, end: i32) -> (b: bool)
    ensures
        b == queued(pod@, points(task_queue@), start as int, end as int),
{
    let capacity = task_queue.len();
    let mut k: usize = 0;
    while k < capacity
        invariant
            k <= capacity,
            capacity == task_queue@.len(),
            forall|m: int|
                0 <= m < k && slot_occupied(m, capacity as int, start as int, end as int) ==> (
                #[trigger] task_queue@[m])@ != pod@,
        decreases capacity - k,
    {
        if is_index_in_queue(k, capacity, start, end) && task_queue[k] == *pod {
            assert(points(task_queue@)[k as int] == pod@);
            return true;
        }
        k += 1;
    }
    false
}

/// Filtering one more element either appends it or changes nothing.
proof fn lemma_filter_next<A>(s: Seq<A>, pred: spec_fn(A) -> bool, i: int)
    requires
        0 <= i < s.len(),
    ensures
        s.take(i + 1).filter(pred) == if pred(s[i]) {
            s.take(i).filter(pred).push(s[i])
        } else {
            s.take(i).filter(pred)
        },
{
    reveal(Seq::filter);
    assert(s.take(i + 1).drop_last() =~= s.take(i));
}

/// The pods that nobody has claimed, in pool order: every pod of the
/// warehouse but those that a robot works on and those in the occupied
/// stretch of the task queue.
pub fn available_pods(
    robot_tasks: &[Pos],
    task_queue: &[Pos],
    task_queue_start: i32,
    task_queue_end: i32,
) -> (pods: Vec<Pos>)
    ensures
        points(pods@) == available(
            points(robot_tasks@),
            points(task_queue@),
            task_queue_start as int,
            task_queue_end as int,
        ),
        pods@.len() <= pool().len(),
{
    let all = all_pods();
    let ghost keep = unclaimed(
        points(robot_tasks@),
        points(task_queue@),
        task_queue_start as int,
        task_queue_end as int,
    );
    let mut pods: Vec<Pos> = Vec::new();
    let mut k: usize = 0;
    proof {
        reveal(Seq::filter);
    }
    while k < all.len()
        invariant
            k <= all@.len(),
            points(all@) == pool(),
            all@.len() == pool().len(),
            keep == unclaimed(
                points(robot_tasks@),
                points(task_queue@),
                task_queue_start as int,
                task_queue_end as int,
            ),
            points(pods@) == pool().take(k as int).filter(keep),
            pods@.len() <= k,
        decreases all@.len() - k,
    {
        let pod = all[k];
        proof {
            lemma_filter_next(pool(), keep, k as int);
        }
        if !is_assigned(&pod, robot_tasks) && !is_queued(
            &pod,
            task_queue,
            task_queue_start,
            task_queue_end,
        ) {
            pods.push(pod);
        }
        k += 1;
    }
    assert(pool().take(k as int) =~= pool());
    pods
}

/// Filtering a sequence without duplicates leaves no duplicates.
proof fn lemma_filter_keeps_distinct<A>(s: Seq<A>, pred: spec_fn(A) -> bool)
    requires
        s.no_duplicates(),
    ensures
        s.filter(pred).no_duplicates(),
    decreases s.len(),
{
    reveal(Seq::filter);
    if s.len() > 0 {
        let front = s.drop_last();
        lemma_filter_keeps_distinct(front, pred);
        if front.filter(pred).contains(s.last()) {
            front.lemma_filter_contains_rev(pred, s.last());
        }
    }
}

/// A cell is among the available pods exactly when it holds a pod that
/// nobody has claimed; and no pod is listed twice.
pub proof fn lemma_available_is_unclaimed_pods(
    robot_tasks: Seq<Point>,
    task_queue: Seq<Point>,
    start: int,
    end: int,
)
    ensures
        forall|p: Point| #[trigger]
            available(robot_tasks, task_queue, start, end).contains(p) <==> is_pod(p) && !claimed(
                p,
                robot_tasks,
                task_queue,
                start,
                end,
            ),
        available(robot_tasks, task_queue, start, end).no_duplicates(),
        available(robot_tasks, task_queue, start, end).len() <= pool().len(),
{
    let keep = unclaimed(robot_tasks, task_queue, start, end);
    let left = available(robot_tasks, task_queue, start, end);
    lemma_pool_is_the_pods();
    pool().lemma_filter_len(keep);
    assert forall|p: Point| #[trigger] left.contains(p) <==> is_pod(p) && !claimed(
        p,
        robot_tasks,
        task_queue,
        start,
        end,
    ) by {
        if left.contains(p) {
            let i = choose|i: int| 0 <= i < left.len() && left[i] == p;
            pool().lemma_filter_pred(keep, i);
            pool().lemma_filter_contains_rev(keep, p);
        }
        if is_pod(p) && keep(p) {
            assert(pool().contains(p));
            let i = choose|i: int| 0 <= i < pool().len() && pool()[i] == p;
            pool().lemma_filter_contains(keep, i);
        }
    }
    lemma_filter_keeps_distinct(pool(), keep);
}

/// The pod that a draw picks from the pods that are left. The draw counts
/// places from the front of the list and runs round it, so every number
/// picks a pod as long as there is one.
pub fn pod_for_draw(available: &Vec<Pos>, draw: usize) -> (result: Result<Pos, WarehouseError>)
    ensures
        available@.len() == 0 ==> result == Err::<Pos, WarehouseError>(
            WarehouseError::NoPodsAvailable,
        ),
        available@.len() > 0 ==> result == Ok::<Pos, WarehouseError>(
            available@[draw as int % available@.len() as int],
        ),
{
    if available.len() == 0 {
        Err(WarehouseError::NoPodsAvailable)
    } else {
        Ok(available[draw % available.len()])
    }
}

/// Draws a number below `bound` with `rand::Rng::gen_range` on the generator
/// of `rand::thread_rng`. The range `0..bound` must not be empty, or the call
/// panics. All that is said of the outcome is that it lies in the range:
/// which number comes is up to chance. The generator is seeded by the
/// operating system when a thread first asks for it; nothing is claimed for
/// a system that cannot seed it.
#[verifier::external_body]
fn random_index(bound: usize) -> (index: usize)
    requires
        bound > 0,
    ensures
        index < bound,
{
    rand::Rng::gen_range(&mut rand::thread_rng(), 0..bound)
}

/// Picks at random a pod that no robot works on and that does not wait in
/// the task queue.
///
/// `robot_tasks` holds one slot per robot, with the sentinel `(-1, -1)` for a
/// robot without a task. `task_queue` is the queue's ring buffer; its entries
/// run from slot `task_queue_start` to slot `task_queue_end`. With every pod
/// claimed there is nothing to pick, and the answer is `NoPodsAvailable`.
pub fn random_pod(
    robot_tasks: &[Pos],
    task_queue: &[Pos],
    task_queue_start: i32,
    task_queue_end: i32,
) -> (result: Result<Pos, WarehouseError>)
    ensures
        match result {
            Ok(pod) => {
                &&& is_pod(pod@)
                &&& !claimed(
                    pod@,
                    points(robot_tasks@),
                    points(task_queue@),
                    task_queue_start as int,
                    task_queue_end as int,
                )
                &&& available(
                    points(robot_tasks@),
                    points(task_queue@),
                    task_queue_start as int,
                    task_queue_end as int,
                ).contains(pod@)
            },
            Err(e) => {
                &&& e == WarehouseError::NoPodsAvailable
                &&& forall|p: Point|
                    is_pod(p) ==> #[trigger] claimed(
                        p,
                        points(robot_tasks@),
                        points(task_queue@),
                        task_queue_start as int,
                        task_queue_end as int,
                    )
            },
        },
{
    let pods = available_pods(robot_tasks, task_queue, task_queue_start, task_queue_end);
    let ghost left = available(
        points(robot_tasks@),
        points(task_queue@),
        task_queue_start as int,
        task_queue_end as int,
    );
    proof {
        lemma_available_is_unclaimed_pods(
            points(robot_tasks@),
            points(task_queue@),
            task_queue_start as int,
            task_queue_end as int,
        );
    }
    let draw = if pods.len() > 0 {
        random_index(pods.len())
    } else {
        0
    };
    let result = pod_for_draw(&pods, draw);
    proof {
        match result {
            Ok(pod) => {
                let at = draw as int % pods@.len() as int;
                assert(points(pods@)[at] == pod@);
                assert(left.contains(pod@));
            },
            Err(_) => {
                assert forall|p: Point| is_pod(p) implies #[trigger] claimed(
                    p,
                    points(robot_tasks@),
                    points(task_queue@),
                    task_queue_start as int,
                    task_queue_end as int,
                ) by {
                    assert(!left.contains(p));
                }
            },
        }
    }
    result
}

} // verus!
