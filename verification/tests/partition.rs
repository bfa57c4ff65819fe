use uptime_monitor::config::ConfigError;
use uptime_monitor::partition::Dispatcher;

fn pool(workers: usize) -> Dispatcher {
    Dispatcher::new(workers).expect("a pool of at least one worker")
}

#[test]
fn a_pool_of_no_workers_is_refused() {
    assert_eq!(Dispatcher::new(0), Err(ConfigError::ZeroWorkers));
}

#[test]
fn a_pool_knows_its_size() {
    assert_eq!(pool(1).num_workers(), 1);
    assert_eq!(pool(8).num_workers(), 8);
}

#[test]
fn three_endpoints_over_two_workers() {
    let endpoints = ["https://a.test", "https://b.test", "https://c.test"];
    let dispatcher = pool(2);
    let first = dispatcher.assignment(endpoints.len(), 0);
    let second = dispatcher.assignment(endpoints.len(), 1);
    assert_eq!(first, vec![0, 2]);
    assert_eq!(second, vec![1]);
    let urls =
        |indices: &Vec<usize>| -> Vec<&str> { indices.iter().map(|&i| endpoints[i]).collect() };
    assert_eq!(urls(&first), vec!["https://a.test", "https://c.test"]);
    assert_eq!(urls(&second), vec!["https://b.test"]);
}

#[test]
fn every_index_falls_to_exactly_one_worker() {
    for workers in 1usize..9 {
        for len in 0usize..30 {
            let dispatcher = pool(workers);
            let plan = dispatcher.plan(len);
            assert_eq!(plan.len(), workers);
            for index in 0..len {
                let owners: Vec<usize> =
                    (0..workers).filter(|&w| plan[w].contains(&index)).collect();
                assert_eq!(owners, vec![index % workers]);
                assert_eq!(dispatcher.worker_for(index), index % workers);
            }
            let total: usize = plan.iter().map(|indices| indices.len()).sum();
            assert_eq!(total, len);
        }
    }
}

#[test]
fn a_worker_checks_in_ascending_order() {
    let dispatcher = pool(3);
    assert_eq!(dispatcher.assignment(11, 0), vec![0, 3, 6, 9]);
    assert_eq!(dispatcher.assignment(11, 1), vec![1, 4, 7, 10]);
    assert_eq!(dispatcher.assignment(11, 2), vec![2, 5, 8]);
}

#[test]
fn excess_workers_get_nothing() {
    let dispatcher = pool(5);
    assert_eq!(dispatcher.plan(2), vec![vec![0], vec![1], vec![], vec![], vec![]]);
}

#[test]
fn a_number_that_names_no_worker_gets_nothing() {
    let dispatcher = pool(2);
    assert_eq!(dispatcher.assignment(10, 2), Vec::<usize>::new());
    assert_eq!(dispatcher.assignment(10, 7), Vec::<usize>::new());
}

#[test]
fn an_empty_list_leaves_every_worker_idle() {
    let dispatcher = pool(4);
    assert_eq!(dispatcher.plan(0), vec![Vec::<usize>::new(); 4]);
}

#[test]
fn a_single_worker_checks_everything() {
    assert_eq!(pool(1).assignment(5, 0), vec![0, 1, 2, 3, 4]);
}

#[test]
fn forty_four_endpoints_over_eight_workers() {
    let plan = pool(8).plan(44);
    let loads: Vec<usize> = plan.iter().map(|indices| indices.len()).collect();
    assert_eq!(loads, vec![6, 6, 6, 6, 5, 5, 5, 5]);
    assert_eq!(plan[3], vec![3, 11, 19, 27, 35, 43]);
}
