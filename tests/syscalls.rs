use os_task::config::MAX_SYSCALL_NUM;
use os_task::process::{sys_exit, sys_get_time, sys_task_info, sys_yield, TaskInfo, TimeVal};
use os_task::task::{TaskManager, TaskStatus};

fn running_pool(n: usize, now_us: usize) -> TaskManager {
    let mut m = TaskManager::new(n);
    m.admit_all();
    assert_eq!(m.run_first_task(now_us), Some(0));
    m
}

fn snapshot(m: &mut TaskManager) -> TaskInfo {
    let mut ti = TaskInfo::new();
    assert_eq!(sys_task_info(m, Some(&mut ti)), 0);
    ti
}

#[test]
fn task_info_new_is_blank() {
    let ti = TaskInfo::new();
    assert_eq!(ti.status, TaskStatus::UnInit);
    assert!(ti.syscall_times.iter().all(|&c| c == 0));
    assert_eq!(ti.syscall_times.len(), MAX_SYSCALL_NUM);
    assert_eq!(ti.time, 0);
}

#[test]
fn get_time_splits_seconds_and_microseconds() {
    let mut tv = TimeVal { sec: 9, usec: 9 };
    assert_eq!(sys_get_time(3_500_001, &mut tv, 0), 0);
    assert_eq!(tv, TimeVal { sec: 3, usec: 500_001 });
    assert_eq!(sys_get_time(0, &mut tv, 42), 0);
    assert_eq!(tv, TimeVal { sec: 0, usec: 0 });
    assert_eq!(sys_get_time(999_999, &mut tv, 0), 0);
    assert_eq!(tv, TimeVal { sec: 0, usec: 999_999 });
    assert_eq!(sys_get_time(1_000_000, &mut tv, 0), 0);
    assert_eq!(tv, TimeVal { sec: 1, usec: 0 });
}

#[test]
fn time_val_of_largest_reading() {
    let tv = TimeVal::from_us(usize::MAX);
    assert_eq!(tv.sec, usize::MAX / 1_000_000);
    assert_eq!(tv.usec, usize::MAX % 1_000_000);
}

#[test]
fn get_time_is_monotonic_over_readings() {
    let readings: [usize; 6] = [0, 1, 999_999, 1_000_000, 1_000_001, 7_250_000];
    let mut prev = TimeVal::from_us(readings[0]);
    for &t in readings.iter().skip(1) {
        let mut tv = TimeVal { sec: 0, usec: 0 };
        sys_get_time(t, &mut tv, 0);
        assert!(prev.sec < tv.sec || (prev.sec == tv.sec && prev.usec <= tv.usec));
        prev = tv;
    }
}

#[test]
fn task_info_null_is_refused_without_change() {
    let mut m = running_pool(2, 1_000);
    m.record_syscall(64);
    let before = *m.task(0);
    assert!(sys_task_info(&mut m, None) < 0);
    assert_eq!(sys_task_info(&mut m, None), -1);
    let after = *m.task(0);
    assert_eq!(after.task_info.status, before.task_info.status);
    assert_eq!(after.task_info.syscall_times, before.task_info.syscall_times);
    assert_eq!(after.task_info.time, before.task_info.time);
    assert_eq!(m.current_task(), Some(0));
    assert_eq!(m.task(1).task_info.status, TaskStatus::Ready);
}

#[test]
fn task_info_null_before_any_dispatch() {
    let mut m = TaskManager::new(1);
    assert_eq!(sys_task_info(&mut m, None), -1);
    assert_eq!(m.task(0).task_info.status, TaskStatus::UnInit);
}

#[test]
fn task_info_reports_running_for_caller() {
    let mut m = running_pool(3, 0);
    m.record_syscall(410);
    m.record_syscall(410);
    m.record_syscall(169);
    let ti = snapshot(&mut m);
    assert_eq!(ti.status, TaskStatus::Running);
    assert_eq!(ti.syscall_times[410], 2);
    assert_eq!(ti.syscall_times[169], 1);
    assert_eq!(ti.syscall_times[64], 0);
    sys_yield(&mut m, 4_000);
    assert_eq!(m.current_task(), Some(1));
    let ti = snapshot(&mut m);
    assert_eq!(ti.status, TaskStatus::Running);
    assert_eq!(ti.syscall_times[410], 0);
}

#[test]
fn yield_keeps_syscall_counts() {
    let mut m = running_pool(2, 0);
    for _ in 0..5 {
        m.record_syscall(124);
    }
    m.record_syscall(169);
    assert_eq!(sys_yield(&mut m, 2_000), 0);
    let t = m.task(0).task_info;
    assert_eq!(t.syscall_times[124], 5);
    assert_eq!(t.syscall_times[169], 1);
    assert_eq!(t.status, TaskStatus::Ready);
    assert_eq!(sys_yield(&mut m, 3_000), 0);
    assert_eq!(m.current_task(), Some(0));
    let ti = snapshot(&mut m);
    assert_eq!(ti.syscall_times[124], 5);
    assert_eq!(ti.syscall_times[169], 1);
}

#[test]
fn exit_hands_cpu_away_for_good() {
    for code in [0, -1, i32::MIN, 7, i32::MAX] {
        let mut m = running_pool(3, 0);
        let next = sys_exit(&mut m, code, 1_000);
        assert_eq!(next, Some(1));
        assert_eq!(m.current_task(), Some(1));
        assert_eq!(m.task(0).task_info.status, TaskStatus::Exited);
        assert_eq!(m.task(0).exit_code, Some(code));
        for t in 2..20usize {
            sys_yield(&mut m, t * 1_000);
            assert_ne!(m.current_task(), Some(0));
            assert_eq!(m.task(0).task_info.status, TaskStatus::Exited);
        }
    }
}

#[test]
fn exit_of_last_task_leaves_no_current() {
    let mut m = running_pool(2, 0);
    assert_eq!(sys_exit(&mut m, 0, 10), Some(1));
    assert_eq!(sys_exit(&mut m, -2, 20), None);
    assert_eq!(m.current_task(), None);
    assert_eq!(m.task(0).task_info.status, TaskStatus::Exited);
    assert_eq!(m.task(1).task_info.status, TaskStatus::Exited);
    assert_eq!(m.task(1).exit_code, Some(-2));
    assert_eq!(m.run_first_task(30), None);
}

#[test]
fn yield_three_times_with_others_running() {
    let mut m = running_pool(2, 1_000_000);
    assert_eq!(m.task(0).first_run_ms, Some(1_000));
    let mut clock: usize = 1_000_000;
    let mut expected_time = Vec::new();
    for round in 0..3usize {
        assert_eq!(m.current_task(), Some(0));
        assert_eq!(m.task(0).task_info.status, TaskStatus::Running);
        clock += 250_000;
        assert_eq!(sys_yield(&mut m, clock), 0);
        // A has handed the CPU to B.
        assert_eq!(m.task(0).task_info.status, TaskStatus::Ready);
        expected_time.push(250 + round * 500);
        assert_eq!(m.task(0).task_info.time, expected_time[round]);
        assert_eq!(m.current_task(), Some(1));
        assert_eq!(m.task(1).task_info.status, TaskStatus::Running);
        clock += 250_000;
        assert_eq!(sys_yield(&mut m, clock), 0);
        assert_eq!(m.task(0).task_info.status, TaskStatus::Running);
    }
    assert_eq!(expected_time, vec![250, 750, 1_250]);
    assert_eq!(m.current_task(), Some(0));
    assert_eq!(m.task(0).task_info.status, TaskStatus::Running);
    assert_eq!(m.task(0).first_run_ms, Some(1_000));
    assert_eq!(m.task(1).first_run_ms, Some(1_250));
}

#[test]
fn fresh_pool_passes_through_ready() {
    let mut m = TaskManager::new(3);
    assert_eq!(m.num_tasks(), 3);
    assert_eq!(m.current_task(), None);
    for i in 0..3 {
        assert_eq!(m.task(i).task_info.status, TaskStatus::UnInit);
        assert_eq!(m.task(i).first_run_ms, None);
    }
    // Nothing is admitted: nothing can be dispatched.
    assert_eq!(m.run_first_task(0), None);
    for i in 0..3 {
        assert_eq!(m.task(i).task_info.status, TaskStatus::UnInit);
    }
    assert!(m.admit_task(1));
    assert!(!m.admit_task(1));
    assert!(!m.admit_task(3));
    assert_eq!(m.task(0).task_info.status, TaskStatus::UnInit);
    assert_eq!(m.task(1).task_info.status, TaskStatus::Ready);
    m.admit_all();
    for i in 0..3 {
        assert_eq!(m.task(i).task_info.status, TaskStatus::Ready);
    }
    assert_eq!(m.run_first_task(5_000), Some(0));
    assert_eq!(m.task(0).task_info.status, TaskStatus::Running);
    assert_eq!(m.task(0).first_run_ms, Some(5));
    assert_eq!(m.task(1).task_info.status, TaskStatus::Ready);
    assert_eq!(m.get_current_task_id(), 0);
    assert_eq!(m.run_first_task(6_000), None);
}

#[test]
fn uninit_task_is_never_dispatched() {
    let mut m = TaskManager::new(3);
    assert!(m.admit_task(0));
    assert!(m.admit_task(2));
    assert_eq!(m.run_first_task(0), Some(0));
    sys_yield(&mut m, 1_000);
    assert_eq!(m.current_task(), Some(2));
    sys_yield(&mut m, 2_000);
    assert_eq!(m.current_task(), Some(0));
    assert_eq!(m.task(1).task_info.status, TaskStatus::UnInit);
}

#[test]
fn task_info_twice_gives_same_snapshot() {
    let mut m = running_pool(2, 2_000);
    m.record_syscall(93);
    sys_yield(&mut m, 9_000);
    sys_yield(&mut m, 11_000);
    let a = snapshot(&mut m);
    let b = snapshot(&mut m);
    assert_eq!(a.status, b.status);
    assert_eq!(a.syscall_times, b.syscall_times);
    assert_eq!(a.time, b.time);
    assert_eq!(a.time, 7);
    assert_eq!(a.syscall_times[93], 1);
}

#[test]
fn record_syscall_refuses_bad_id_or_no_task() {
    let mut m = TaskManager::new(1);
    assert!(!m.record_syscall(1));
    m.admit_all();
    m.run_first_task(0);
    assert!(!m.record_syscall(MAX_SYSCALL_NUM));
    assert!(m.record_syscall(MAX_SYSCALL_NUM - 1));
    assert_eq!(m.task(0).task_info.syscall_times[MAX_SYSCALL_NUM - 1], 1);
}

#[test]
fn yield_alone_keeps_cpu() {
    let mut m = running_pool(1, 0);
    assert_eq!(sys_yield(&mut m, 3_999), 0);
    assert_eq!(m.current_task(), Some(0));
    assert_eq!(m.task(0).task_info.status, TaskStatus::Running);
    assert_eq!(m.task(0).task_info.time, 3);
}

#[test]
fn round_robin_skips_exited_tasks() {
    let mut m = running_pool(4, 0);
    sys_yield(&mut m, 1_000);
    assert_eq!(m.current_task(), Some(1));
    assert_eq!(sys_exit(&mut m, 1, 2_000), Some(2));
    sys_yield(&mut m, 3_000);
    assert_eq!(m.current_task(), Some(3));
    sys_yield(&mut m, 4_000);
    assert_eq!(m.current_task(), Some(0));
    sys_yield(&mut m, 5_000);
    assert_eq!(m.current_task(), Some(2));
}

#[test]
fn empty_pool_has_nothing_to_run() {
    let mut m = TaskManager::new(0);
    assert_eq!(m.num_tasks(), 0);
    assert_eq!(m.run_first_task(0), None);
    assert_eq!(m.current_task(), None);
}
