use rendezvous::{Arrival, Outcome, Registry, WaitEvent, TIMEOUT};
use std::future::Future;
use std::sync::Arc;
use tokio::runtime::Builder;
use tokio::sync::Mutex;
use tokio::time::{self, Duration, Instant};

type Shared = Arc<Mutex<Registry>>;

/// Runs `scene` on a single thread whose clock stands still while there is
/// work to do and jumps to the next timer when there is none.
fn play<F: Future<Output = ()>>(scene: F) {
    Builder::new_current_thread().enable_time().start_paused(true).build().unwrap().block_on(scene);
}

fn seconds_since(epoch: Instant) -> u64 {
    Instant::now().duration_since(epoch).as_secs()
}

/// One party's visit: it arrives, and either wakes its partner or waits for
/// its own. The lock is held for the calls on the registry and for nothing
/// else.
async fn meet(registry: Shared, epoch: Instant, key: String) -> Outcome {
    let arrived = Instant::now();
    let now = arrived.duration_since(epoch).as_secs();
    let arrival = registry.lock().await.arrive(key.clone(), now);
    match arrival {
        Arrival::Second { partner } => partner.wake(),
        Arrival::First { mut listener, deadline } => {
            let until = arrived + Duration::from_secs(deadline - now);
            let event = match time::timeout_at(until, listener.changed()).await {
                Ok(Ok(())) => WaitEvent::Woken,
                Ok(Err(_)) => {
                    time::sleep_until(until).await;
                    WaitEvent::Elapsed
                }
                Err(_) => WaitEvent::Elapsed,
            };
            match event {
                WaitEvent::Woken => event.outcome(),
                WaitEvent::Elapsed => registry.lock().await.expire(&key),
            }
        }
    }
}

#[test]
fn service_pairs_two_parties_two_units_apart() {
    play(async {
        let registry: Shared = Arc::new(Mutex::new(Registry::new()));
        let epoch = Instant::now();
        let one = tokio::spawn(meet(registry.clone(), epoch, "x".to_string()));
        time::sleep(Duration::from_secs(2)).await;
        assert!(registry.lock().await.is_waiting(&"x".to_string()));

        let two = meet(registry.clone(), epoch, "x".to_string()).await;
        assert_eq!(two, Outcome::Paired);
        assert_eq!(Instant::now().duration_since(epoch), Duration::from_secs(2));

        assert_eq!(one.await.unwrap(), Outcome::Paired);
        assert_eq!(Instant::now().duration_since(epoch), Duration::from_secs(2));
        assert!(registry.lock().await.is_empty());
    });
}

#[test]
fn service_times_out_a_solitary_party_after_ten_units() {
    play(async {
        let registry: Shared = Arc::new(Mutex::new(Registry::new()));
        let epoch = Instant::now();
        let alone = tokio::spawn(meet(registry.clone(), epoch, "y".to_string()));
        time::sleep(Duration::from_millis(9_999)).await;
        assert!(!alone.is_finished());
        assert!(registry.lock().await.is_waiting(&"y".to_string()));

        assert_eq!(alone.await.unwrap(), Outcome::TimedOut);
        assert_eq!(Instant::now().duration_since(epoch), Duration::from_secs(TIMEOUT));
        time::sleep(Duration::from_secs(1)).await;
        assert_eq!(seconds_since(epoch), 11);
        assert!(registry.lock().await.is_empty());
    });
}

#[test]
fn service_treats_an_arrival_after_a_timeout_as_a_first_arrival() {
    play(async {
        let registry: Shared = Arc::new(Mutex::new(Registry::new()));
        let epoch = Instant::now();
        let early = tokio::spawn(meet(registry.clone(), epoch, "z".to_string()));
        time::sleep(Duration::from_secs(11)).await;
        assert_eq!(early.await.unwrap(), Outcome::TimedOut);
        assert!(!registry.lock().await.is_waiting(&"z".to_string()));

        let late = tokio::spawn(meet(registry.clone(), epoch, "z".to_string()));
        time::sleep(Duration::from_secs(1)).await;
        assert!(!late.is_finished());
        assert!(registry.lock().await.is_waiting(&"z".to_string()));

        assert_eq!(late.await.unwrap(), Outcome::TimedOut);
        assert_eq!(seconds_since(epoch), 21);
        assert!(registry.lock().await.is_empty());
    });
}

#[test]
fn service_keeps_distinct_keys_apart() {
    play(async {
        let registry: Shared = Arc::new(Mutex::new(Registry::new()));
        let epoch = Instant::now();
        let on_a = tokio::spawn(meet(registry.clone(), epoch, "a".to_string()));
        time::sleep(Duration::from_secs(3)).await;
        let on_b = tokio::spawn(meet(registry.clone(), epoch, "b".to_string()));
        time::sleep(Duration::from_secs(3)).await;

        assert_eq!(meet(registry.clone(), epoch, "a".to_string()).await, Outcome::Paired);
        assert_eq!(on_a.await.unwrap(), Outcome::Paired);
        assert_eq!(seconds_since(epoch), 6);
        assert!(registry.lock().await.is_waiting(&"b".to_string()));
        assert!(!on_b.is_finished());

        assert_eq!(on_b.await.unwrap(), Outcome::TimedOut);
        assert_eq!(Instant::now().duration_since(epoch), Duration::from_secs(13));
    });
}

#[test]
fn service_pairs_a_late_partner_just_before_the_deadline() {
    play(async {
        let registry: Shared = Arc::new(Mutex::new(Registry::new()));
        let epoch = Instant::now();
        let one = tokio::spawn(meet(registry.clone(), epoch, "k".to_string()));
        time::sleep(Duration::from_millis(9_999)).await;
        assert_eq!(meet(registry.clone(), epoch, "k".to_string()).await, Outcome::Paired);
        assert_eq!(one.await.unwrap(), Outcome::Paired);
        assert!(registry.lock().await.is_empty());
    });
}

#[test]
fn service_starts_a_new_pair_for_a_third_party() {
    play(async {
        let registry: Shared = Arc::new(Mutex::new(Registry::new()));
        let epoch = Instant::now();
        let one = tokio::spawn(meet(registry.clone(), epoch, "k".to_string()));
        time::sleep(Duration::from_secs(1)).await;
        assert_eq!(meet(registry.clone(), epoch, "k".to_string()).await, Outcome::Paired);
        let three = tokio::spawn(meet(registry.clone(), epoch, "k".to_string()));
        assert_eq!(one.await.unwrap(), Outcome::Paired);
        time::sleep(Duration::from_secs(1)).await;
        assert!(!three.is_finished());
        assert_eq!(meet(registry.clone(), epoch, "k".to_string()).await, Outcome::Paired);
        assert_eq!(three.await.unwrap(), Outcome::Paired);
        assert_eq!(seconds_since(epoch), 2);
    });
}
