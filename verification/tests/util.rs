//! The repository, timer, cooldown and completion utilities.

use shooter_core::completion::Completion;
use shooter_core::components::Periodic;
use shooter_core::repository::Repository;
use shooter_core::timer::Timer;

#[test]
fn repository_insert_and_lookup() {
    let mut repo: Repository<u32> = Repository::new();
    let a = repo.insert(String::from("alpha"), 10);
    let b = repo.insert(String::from("beta"), 20);
    assert_eq!(a, 0);
    assert_eq!(b, 1);
    assert_eq!(*repo.index(0), 10);
    assert_eq!(*repo.index(1), 20);
    assert_eq!(repo.index_of(&String::from("alpha")), Some(0));
    assert_eq!(repo.index_of(&String::from("beta")), Some(1));
    assert_eq!(repo.index_of(&String::from("gamma")), None);
    assert_eq!(repo.name(&String::from("alpha")), Some(&10));
    assert_eq!(repo.name(&String::from("gamma")), None);
}

#[test]
fn repository_reinsertion_wins() {
    let mut repo: Repository<u32> = Repository::with_capacity(4);
    repo.insert(String::from("slot"), 1);
    repo.insert(String::from("slot"), 2);
    assert_eq!(repo.index_of(&String::from("slot")), Some(1));
    assert_eq!(repo.name(&String::from("slot")), Some(&2));
}

#[test]
fn timer_pauses_and_resumes() {
    let mut t = Timer::new(1000);
    assert_eq!(t.elapsed(1500), 500);
    t.pause(2000);
    assert_eq!(t.elapsed(2500), 1000);
    assert_eq!(t.elapsed(9000), 1000);
    t.resume(3000);
    assert_eq!(t.elapsed(3000), 1000);
    assert_eq!(t.elapsed(3500), 1500);
}

#[test]
fn timer_double_pause_is_harmless() {
    let mut t = Timer::new(0);
    t.pause(100);
    t.pause(700);
    assert_eq!(t.elapsed(900), 100);
    t.resume(1000);
    assert_eq!(t.elapsed(1000), 100);
}

#[test]
fn cooldown_gating() {
    let mut p = Periodic::new(0, 200);
    assert!(!p.elapsed(100));
    assert!(p.elapsed(200));
    assert!(!p.elapsed(300));
    assert!(p.elapsed(400));
    assert!(!p.elapsed(599));
    assert!(p.elapsed(600));
}

#[test]
fn cooldown_keeps_at_most_one_interval_of_backlog() {
    let mut p = Periodic::new(0, 200);
    assert!(p.elapsed(1000));
    assert_eq!(p.next, 1000);
    assert!(p.elapsed(1000));
    assert_eq!(p.next, 1200);
    assert!(!p.elapsed(1100));
}

#[test]
fn completion_two_stage_build() {
    let mut c: Completion<u32, String> = Completion::new(7);
    assert!(c.is_incomplete());
    assert!(!c.is_complete());
    assert_eq!(c.get(), None);
    c.complete(|n: u32| format!("value {}", n));
    assert!(c.is_complete());
    assert!(!c.is_incomplete());
    assert_eq!(c.get(), Some(&String::from("value 7")));
}
