use std::sync::Arc;
use std::sync::atomic::AtomicBool;
use std::sync::atomic::AtomicU64;
use std::sync::atomic::Ordering;

use scan_manager::pause::pause_barrier_enter;
use scan_manager::pause::pause_poll;

#[test]
/// only the caller that finds the barrier at zero becomes the prompter
fn barrier_admits_one_prompter() {
    let (raised, first) = pause_barrier_enter(0);
    assert_eq!(raised, 1);
    assert!(first);

    let (unchanged, second) = pause_barrier_enter(raised);
    assert_eq!(unchanged, 1);
    assert!(!second);
}

#[test]
/// while the flag is set every poll keeps waiting; when it clears, the
/// barrier is lowered only from exactly one
fn poll_waits_until_the_flag_clears() {
    assert_eq!(pause_poll(true, 0), None);
    assert_eq!(pause_poll(true, 1), None);
    assert_eq!(pause_poll(false, 1), Some(0));
    assert_eq!(pause_poll(false, 0), Some(0));
    assert_eq!(pause_poll(false, 5), Some(5));
}

#[test]
/// tests that the pause protocol pauses execution and releases execution
/// when the shared flag is toggled from another task after a delay
fn scanner_pause_scan_with_finished_spinner() {
    let runtime = tokio::runtime::Builder::new_multi_thread()
        .worker_threads(2)
        .enable_time()
        .build()
        .unwrap();

    runtime.block_on(async {
        let pause_flag = Arc::new(AtomicBool::new(true));
        let barrier = Arc::new(AtomicU64::new(0));

        let now = tokio::time::Instant::now();
        let expected = tokio::time::Duration::from_secs(2);

        let clearer = Arc::clone(&pause_flag);
        tokio::spawn(async move {
            tokio::time::sleep(expected).await;
            clearer.store(false, Ordering::Release);
        });

        // the pause loop a worker runs: enter the barrier, then poll the
        // flag each tick until the protocol says to leave
        let (raised, _prompter) = pause_barrier_enter(barrier.load(Ordering::Relaxed));
        barrier.store(raised, Ordering::Relaxed);

        let mut interval = tokio::time::interval(tokio::time::Duration::from_millis(100));
        loop {
            interval.tick().await;
            match pause_poll(pause_flag.load(Ordering::Acquire), barrier.load(Ordering::Relaxed)) {
                None => continue,
                Some(lowered) => {
                    barrier.store(lowered, Ordering::Relaxed);
                    break;
                }
            }
        }

        assert!(now.elapsed() >= expected);
        assert_eq!(barrier.load(Ordering::Relaxed), 0);
    });
}
