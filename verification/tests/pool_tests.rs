use repo_hoarder::config::PoolConfig;
use repo_hoarder::pool::Action;
use repo_hoarder::pool::Pool;
use repo_hoarder::pool::PoolError;
use repo_hoarder::repo::Repo;
use repo_hoarder::report::Tally;
use repo_hoarder::task::Outcome;

fn repos(names: &[&str]) -> Vec<Repo> {
    names.iter().map(|name| Repo::new(name.to_string(), format!("u-{name}"))).collect()
}

fn numbered(count: usize) -> Vec<Repo> {
    (0..count).map(|i| Repo::new(format!("r{i}"), format!("u{i}"))).collect()
}

fn pool(names: &[&str], concurrency: usize) -> Pool {
    match Pool::new(repos(names), PoolConfig::new(concurrency, false)) {
        Ok(pool) => pool,
        Err(e) => panic!("pool refused: {e:?}"),
    }
}

/// Drives a pool to its end. Each time the pool waits, `pick` chooses which
/// of the running tasks ends next, and `exit` gives its exit code. Returns
/// the largest number of tasks that ran at once.
fn drive(
    pool: &mut Pool,
    running: &mut Vec<usize>,
    pick: &mut dyn FnMut(usize) -> usize,
    exit: &dyn Fn(usize) -> Option<i32>,
) -> usize {
    let mut peak = 0;
    loop {
        assert!(pool.running_count() <= pool.limit());
        assert_eq!(pool.running_count(), running.len());
        assert_eq!(pool.started(), pool.running_count() + pool.completed_count());
        peak = peak.max(running.len());
        match pool.poll() {
            Action::Start(idx) => {
                assert!(!running.contains(&idx));
                running.push(idx);
            }
            Action::Wait => {
                assert!(!running.is_empty());
                let idx = running.remove(pick(running.len()));
                assert_eq!(pool.complete(idx, exit(idx)), Ok(()));
            }
            Action::Done => return peak,
            Action::Abort(idx) => panic!("unexpected abort at {idx}"),
        }
    }
}

#[test]
fn three_repositories_two_at_a_time_one_fails() {
    let mut pool = match Pool::new(
        vec![
            Repo::new("a".to_string(), "u1".to_string()),
            Repo::new("b".to_string(), "u2".to_string()),
            Repo::new("c".to_string(), "u3".to_string()),
        ],
        PoolConfig::new(2, false),
    ) {
        Ok(pool) => pool,
        Err(e) => panic!("pool refused: {e:?}"),
    };
    let mut running = Vec::new();
    let peak = drive(&mut pool, &mut running, &mut |_| 0, &|idx| {
        if idx == 1 {
            Some(1)
        } else {
            Some(0)
        }
    });
    assert_eq!(peak, 2);
    assert!(pool.is_done());
    let counts = pool.finish();
    assert_eq!(counts, Some(Tally { success_count: 2, failure_count: 1 }));
    let diagnostics: Vec<String> =
        pool.outcomes().iter().filter_map(|outcome| outcome.diagnostic()).collect();
    assert_eq!(diagnostics, vec!["Failed to clone b".to_string()]);
    let lines = match counts {
        Some(tally) => tally.report(),
        None => Vec::new(),
    };
    assert_eq!(
        lines,
        vec![
            "Cloned 2 repositories successfully".to_string(),
            "Failed to clone 1 repositories".to_string(),
        ]
    );
}

#[test]
fn empty_listing_dispatches_nothing() {
    let mut pool = pool(&[], 4);
    assert_eq!(pool.total(), 0);
    assert_eq!(pool.poll(), Action::Done);
    assert_eq!(pool.started(), 0);
    assert!(pool.is_done());
    assert!(pool.outcomes().is_empty());
    let counts = pool.finish();
    assert_eq!(counts, Some(Tally { success_count: 0, failure_count: 0 }));
    let lines = match counts {
        Some(tally) => tally.report(),
        None => Vec::new(),
    };
    assert_eq!(lines, vec!["Cloned 0 repositories successfully".to_string()]);
}

#[test]
fn zero_concurrency_is_refused() {
    assert!(matches!(
        Pool::new(repos(&["a"]), PoolConfig::new(0, false)),
        Err(PoolError::ZeroConcurrency)
    ));
    assert!(matches!(Pool::new(Vec::new(), PoolConfig::new(0, true)), Err(PoolError::ZeroConcurrency)));
}

#[test]
fn new_pool_has_one_task_per_descriptor_in_order() {
    let made = Pool::new(repos(&["a", "b", "c"]), PoolConfig::new(2, true));
    let pool = match made {
        Ok(pool) => pool,
        Err(e) => panic!("pool refused: {e:?}"),
    };
    assert_eq!(pool.total(), 3);
    assert_eq!(pool.limit(), 2);
    assert_eq!(pool.started(), 0);
    assert_eq!(pool.running_count(), 0);
    assert_eq!(pool.completed_count(), 0);
    assert!(!pool.is_done());
    assert!(!pool.is_aborted());
    let names: Vec<String> =
        (0..3).filter_map(|i| pool.task(i)).map(|task| task.repo.name.clone()).collect();
    assert_eq!(names, vec!["a".to_string(), "b".to_string(), "c".to_string()]);
    let second = match pool.task(1) {
        Some(task) => task,
        None => panic!("no task at 1"),
    };
    assert_eq!(second.repo.clone_url, "u-b");
    assert!(second.recursive);
    assert!(pool.task(3).is_none());
    assert_eq!(pool.finish(), None);
}

#[test]
fn tasks_start_in_input_order_until_the_limit() {
    let mut pool = pool(&["a", "b", "c", "d"], 3);
    assert_eq!(pool.poll(), Action::Start(0));
    assert_eq!(pool.poll(), Action::Start(1));
    assert_eq!(pool.poll(), Action::Start(2));
    assert_eq!(pool.poll(), Action::Wait);
    assert_eq!(pool.poll(), Action::Wait);
    assert_eq!(pool.running_count(), 3);
    assert_eq!(pool.started(), 3);
    assert!(pool.is_running(0) && pool.is_running(1) && pool.is_running(2));
    assert!(!pool.is_running(3));
}

#[test]
fn a_freed_slot_is_filled_by_the_next_task() {
    let mut pool = pool(&["a", "b", "c", "d"], 2);
    assert_eq!(pool.poll(), Action::Start(0));
    assert_eq!(pool.poll(), Action::Start(1));
    assert_eq!(pool.poll(), Action::Wait);
    assert_eq!(pool.complete(1, Some(0)), Ok(()));
    assert_eq!(pool.running_count(), 1);
    assert_eq!(pool.poll(), Action::Start(2));
    assert_eq!(pool.poll(), Action::Wait);
    assert_eq!(pool.complete(0, Some(0)), Ok(()));
    assert_eq!(pool.poll(), Action::Start(3));
    assert_eq!(pool.poll(), Action::Wait);
    assert_eq!(pool.complete(3, Some(0)), Ok(()));
    assert_eq!(pool.poll(), Action::Wait);
    assert_eq!(pool.complete(2, Some(0)), Ok(()));
    assert_eq!(pool.poll(), Action::Done);
    assert_eq!(pool.completion_order(), &vec![1, 0, 3, 2]);
}

#[test]
fn outcomes_come_in_completion_order() {
    let mut pool = pool(&["a", "b", "c"], 3);
    assert_eq!(pool.poll(), Action::Start(0));
    assert_eq!(pool.poll(), Action::Start(1));
    assert_eq!(pool.poll(), Action::Start(2));
    assert_eq!(pool.complete(2, Some(1)), Ok(()));
    assert_eq!(pool.complete(0, Some(0)), Ok(()));
    assert_eq!(pool.complete(1, Some(7)), Ok(()));
    assert_eq!(
        pool.outcomes(),
        &vec![
            Outcome::Failure { repo_name: "c".to_string() },
            Outcome::Success,
            Outcome::Failure { repo_name: "b".to_string() },
        ]
    );
    assert_eq!(pool.completion_order(), &vec![2, 0, 1]);
    assert_eq!(pool.poll(), Action::Done);
    assert_eq!(pool.finish(), Some(Tally { success_count: 1, failure_count: 2 }));
}

#[test]
fn limit_above_the_input_size_never_waits_for_a_slot() {
    let mut pool = pool(&["a", "b", "c"], 64);
    assert_eq!(pool.poll(), Action::Start(0));
    assert_eq!(pool.poll(), Action::Start(1));
    assert_eq!(pool.poll(), Action::Start(2));
    assert_eq!(pool.running_count(), 3);
    assert_eq!(pool.poll(), Action::Wait);
}

#[test]
fn limit_of_one_runs_the_tasks_one_after_another() {
    let mut pool = match Pool::new(numbered(5), PoolConfig::new(1, false)) {
        Ok(pool) => pool,
        Err(e) => panic!("pool refused: {e:?}"),
    };
    let mut running = Vec::new();
    let peak = drive(&mut pool, &mut running, &mut |_| 0, &|_| Some(0));
    assert_eq!(peak, 1);
    assert_eq!(pool.completion_order(), &vec![0, 1, 2, 3, 4]);
    assert_eq!(pool.finish(), Some(Tally { success_count: 5, failure_count: 0 }));
}

#[test]
fn every_run_gives_one_outcome_per_task_within_the_limit() {
    let mut seed: u64 = 0x2545_f491_4f6c_dd1d;
    for limit in 1..7usize {
        for count in 0..12usize {
            for policy in 0..3 {
                let mut pool = match Pool::new(numbered(count), PoolConfig::new(limit, false)) {
                    Ok(pool) => pool,
                    Err(e) => panic!("pool refused: {e:?}"),
                };
                let mut running = Vec::new();
                let mut pick = |len: usize| -> usize {
                    seed = seed.wrapping_mul(6364136223846793005).wrapping_add(1442695040888963407);
                    match policy {
                        0 => 0,
                        1 => len - 1,
                        _ => ((seed >> 33) as usize) % len,
                    }
                };
                let exit = |idx: usize| if idx % 3 == 1 { Some(1) } else { Some(0) };
                let peak = drive(&mut pool, &mut running, &mut pick, &exit);
                assert_eq!(peak, limit.min(count));
                assert!(pool.is_done());
                assert_eq!(pool.outcomes().len(), count);
                assert_eq!(pool.started(), count);
                assert_eq!(pool.completed_count(), count);
                assert_eq!(pool.running_count(), 0);
                let mut order = pool.completion_order().clone();
                order.sort();
                assert_eq!(order, (0..count).collect::<Vec<usize>>());
                for (k, idx) in pool.completion_order().iter().enumerate() {
                    let expected = if idx % 3 == 1 {
                        Outcome::Failure { repo_name: format!("r{idx}") }
                    } else {
                        Outcome::Success
                    };
                    assert_eq!(pool.outcomes()[k], expected);
                }
                let failures = (0..count).filter(|idx| idx % 3 == 1).count();
                assert_eq!(
                    pool.finish(),
                    Some(Tally { success_count: count - failures, failure_count: failures })
                );
            }
        }
    }
}

#[test]
fn a_failure_does_not_touch_the_other_tasks() {
    let mut with_failure = pool(&["a", "b", "c"], 2);
    let mut without = pool(&["a", "b", "c"], 2);
    let mut running = Vec::new();
    drive(&mut with_failure, &mut running, &mut |_| 0, &|idx| if idx == 1 { Some(1) } else { Some(0) });
    drive(&mut without, &mut running, &mut |_| 0, &|_| Some(0));
    assert_eq!(with_failure.completion_order(), without.completion_order());
    for (k, idx) in with_failure.completion_order().iter().enumerate() {
        if *idx != 1 {
            assert_eq!(with_failure.outcomes()[k], without.outcomes()[k]);
            assert_eq!(with_failure.outcomes()[k], Outcome::Success);
        }
    }
    assert_eq!(with_failure.outcomes()[1], Outcome::Failure { repo_name: "b".to_string() });
}

#[test]
fn a_report_about_a_task_that_is_not_running_is_refused() {
    let mut pool = pool(&["a", "b", "c"], 2);
    assert_eq!(pool.complete(0, Some(0)), Err(PoolError::NotRunning));
    assert_eq!(pool.poll(), Action::Start(0));
    assert_eq!(pool.complete(1, Some(0)), Err(PoolError::NotRunning));
    assert_eq!(pool.complete(7, Some(0)), Err(PoolError::NotRunning));
    assert_eq!(pool.fail_spawn(2), Err(PoolError::NotRunning));
    assert_eq!(pool.running_count(), 1);
    assert_eq!(pool.completed_count(), 0);
    assert!(pool.outcomes().is_empty());
    assert!(!pool.is_aborted());
}

#[test]
fn a_task_completes_only_once() {
    let mut pool = pool(&["a", "b"], 2);
    assert_eq!(pool.poll(), Action::Start(0));
    assert_eq!(pool.complete(0, Some(1)), Ok(()));
    assert_eq!(pool.complete(0, Some(0)), Err(PoolError::NotRunning));
    assert_eq!(pool.outcomes(), &vec![Outcome::Failure { repo_name: "a".to_string() }]);
    assert_eq!(pool.completion_order(), &vec![0]);
}

#[test]
fn a_client_that_cannot_be_spawned_stops_the_run() {
    let mut pool = pool(&["a", "b", "c"], 2);
    assert_eq!(pool.poll(), Action::Start(0));
    assert_eq!(pool.poll(), Action::Start(1));
    assert_eq!(pool.complete(0, Some(0)), Ok(()));
    assert_eq!(pool.fail_spawn(1), Ok(()));
    assert!(pool.is_aborted());
    assert!(!pool.is_done());
    assert_eq!(pool.poll(), Action::Abort(1));
    assert_eq!(pool.poll(), Action::Abort(1));
    assert_eq!(pool.started(), 2);
    assert_eq!(pool.complete(1, Some(0)), Err(PoolError::Aborted));
    assert_eq!(pool.complete(2, Some(0)), Err(PoolError::Aborted));
    assert_eq!(pool.fail_spawn(1), Err(PoolError::Aborted));
    assert_eq!(pool.finish(), None);
    assert_eq!(pool.outcomes(), &vec![Outcome::Success]);
}

#[test]
fn a_missing_client_aborts_before_any_tally() {
    let mut pool = pool(&["a", "b", "c"], 2);
    assert_eq!(pool.poll(), Action::Start(0));
    assert_eq!(pool.fail_spawn(0), Ok(()));
    assert_eq!(pool.poll(), Action::Abort(0));
    assert_eq!(pool.finish(), None);
    let failed = match pool.task(0) {
        Some(task) => task,
        None => panic!("no task at 0"),
    };
    assert_eq!(failed.program(), "git");
    assert_eq!(failed.arguments(), vec!["clone".to_string(), "u-a".to_string(), "a".to_string()]);
}

#[test]
fn there_is_no_tally_before_the_last_task_has_ended() {
    let mut pool = pool(&["a", "b"], 2);
    assert_eq!(pool.finish(), None);
    assert_eq!(pool.poll(), Action::Start(0));
    assert_eq!(pool.poll(), Action::Start(1));
    assert_eq!(pool.complete(0, Some(0)), Ok(()));
    assert_eq!(pool.finish(), None);
    assert_eq!(pool.complete(1, Some(0)), Ok(()));
    assert_eq!(pool.finish(), Some(Tally { success_count: 2, failure_count: 0 }));
}

#[test]
fn the_recursive_setting_reaches_every_task() {
    let made = Pool::new(repos(&["a", "b"]), PoolConfig::new(1, true));
    let pool = match made {
        Ok(pool) => pool,
        Err(e) => panic!("pool refused: {e:?}"),
    };
    for idx in 0..2 {
        let task = match pool.task(idx) {
            Some(task) => task,
            None => panic!("no task at {idx}"),
        };
        assert_eq!(task.arguments().last(), Some(&"--recursive".to_string()));
    }
}
