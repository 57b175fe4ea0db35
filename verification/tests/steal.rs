use thunkpool::threadpooling::steal::StealScan;

fn scan_order(thief: usize, queues: usize) -> Vec<usize> {
    let mut scan = StealScan::new(thief, queues);
    let mut tried = Vec::new();
    while let Some(v) = scan.victim() {
        tried.push(v);
        scan.advance();
    }
    tried
}

#[test]
fn scan_of_empty_queues_tries_every_other_queue_in_order() {
    assert_eq!(scan_order(1, 4), vec![0, 2, 3]);
    assert_eq!(scan_order(0, 4), vec![1, 2, 3]);
    assert_eq!(scan_order(3, 4), vec![0, 1, 2]);
    assert_eq!(scan_order(0, 1), Vec::<usize>::new());
    assert_eq!(scan_order(7, 3), vec![0, 1, 2]);
}

#[test]
fn scan_stops_after_the_first_task_taken() {
    let mut scan = StealScan::new(2, 5);
    assert_eq!(scan.victim(), Some(0));
    scan.advance();
    assert_eq!(scan.victim(), Some(1));
    scan.advance();
    assert_eq!(scan.victim(), Some(3));
    scan.advance_taken();
    assert_eq!(scan.victim(), None);
    scan.advance();
    assert_eq!(scan.victim(), None);
    assert_eq!(scan.thief(), 2);
}

#[test]
fn scan_moves_one_task_from_the_first_other_queue_holding_one() {
    // queue contents by worker; worker 1 asks for work
    let mut queues: Vec<Vec<u32>> = vec![vec![], vec![], vec![7, 8], vec![9]];
    let mut scan = StealScan::new(1, queues.len());
    while let Some(v) = scan.victim() {
        if queues[v].is_empty() {
            scan.advance();
        } else {
            let task = queues[v].remove(0);
            queues[scan.thief()].push(task);
            scan.advance_taken();
        }
    }
    assert_eq!(queues, vec![vec![], vec![7], vec![8], vec![9]]);
}

#[test]
fn advancing_with_nothing_offered_keeps_the_scan_over() {
    let mut scan = StealScan::new(0, 1);
    assert_eq!(scan.victim(), None);
    scan.advance();
    assert_eq!(scan.victim(), None);
}
