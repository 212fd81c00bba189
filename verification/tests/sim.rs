//! End-to-end scenarios over the world, the systems and the level.

use shooter_core::angle::{Angle, PI_M};
use shooter_core::components::{
    Bounding, Computed, Controlled, Explodes, Hitpoints, Inertial, InertialMotionType, Lifetime,
    Periodic, Powerup, Shooter, Spatial,
};
use shooter_core::def::{
    EntityDescriptor, FactionId, SpawnerDescriptor, SpawnerDispatch, SpawnerId, SpawnerParameters,
};
use shooter_core::level::Level;
use shooter_core::repository::Repository;
use shooter_core::spawn::{spawner, Infrastructure};
use shooter_core::system::cleanup::Cleanup;
use shooter_core::system::collider::Collider;
use shooter_core::system::compute::{offset_side, Compute};
use shooter_core::system::control::{Control, InputSample};
use shooter_core::system::inertia::Inertia;
use shooter_core::system::upgrader::Upgrader;
use shooter_core::vec::Vec2;
use shooter_core::world::World;

fn debris_descriptor() -> EntityDescriptor {
    let mut d = EntityDescriptor::empty();
    d.lifetime = Some(Lifetime(500));
    d.spatial = Some(Spatial { position: Vec2(0, 0), angle: Angle(0), lean: 0 });
    d
}

fn test_inf() -> Infrastructure {
    let mut repository = Repository::new();
    repository.insert(String::from("debris"), debris_descriptor());
    let mut spawners = Repository::new();
    spawners.insert(
        String::from("burst"),
        SpawnerDescriptor {
            dispatch: SpawnerDispatch::All,
            entities: vec![SpawnerParameters {
                position: Vec2(0, 0),
                angle: Angle(0),
                entity: Some(String::from("debris")),
                sound: Some(String::from("boom")),
            }],
        },
    );
    Infrastructure { repository, spawner: spawners }
}

fn body(pos: Vec2, radius: i64, faction: usize, hp: i64) -> EntityDescriptor {
    let mut d = EntityDescriptor::empty();
    d.spatial = Some(Spatial { position: pos, angle: Angle(0), lean: 0 });
    d.bounding = Some(Bounding { radius, faction: FactionId(faction) });
    d.hitpoints = Some(Hitpoints(hp));
    d
}

fn drifter(pos: Vec2, v_max: Vec2, v_fraction: Vec2, v_current: Vec2, mode: InertialMotionType) -> EntityDescriptor {
    let mut d = EntityDescriptor::empty();
    d.spatial = Some(Spatial { position: pos, angle: Angle(0), lean: 0 });
    d.inertial = Some(Inertial {
        v_max,
        v_fraction,
        v_current,
        trans_motion: 1000,
        trans_rest: 1000,
        av_max_v0: 10_000,
        av_max_vmax: 5_000,
        trans_lean: 0,
        motion_type: mode,
    });
    d
}

#[test]
fn projectile_kill_records_one_explosion() {
    let inf = test_inf();
    let mut world = World::new();
    let _a = world.create_now(&body(Vec2(0, 0), 5_000, 0, 50_000));
    let mut b_desc = body(Vec2(10_000, 0), 20_000, 1, 10_000);
    b_desc.explodes = Some(Explodes { spawner: SpawnerId(0) });
    let b = world.create_now(&b_desc);
    let mut collider = Collider;
    let pairs = collider.run(&mut world, &inf, 0);
    assert_eq!(pairs, vec![(0, 1), (1, 0)]);
    assert_eq!(world.hitpoints[0], Some(Hitpoints(40_000)));
    assert_eq!(world.hitpoints[1], Some(Hitpoints(0)));
    assert_eq!(world.pending_creates.len(), 1);
    let bundle = world.pending_creates[0];
    assert_eq!(bundle.spatial.unwrap().position, Vec2(10_000, 0));
    assert_eq!(bundle.lifetime, Some(Lifetime(500)));
    assert_eq!(world.sounds.len(), 1);
    assert_eq!(world.sounds[0], String::from("boom"));

    let mut cleanup = Cleanup::new();
    cleanup.run(&mut world, 0);
    assert!(world.alive[b.index]);
    assert_eq!(world.hitpoints[b.index], Some(Hitpoints(0)));
    world.maintain();
    assert!(!world.is_alive(b));
    assert_eq!(world.pending_creates.len(), 0);
    assert!(world.alive[1]);
    assert_eq!(world.lifetime[1], Some(Lifetime(500)));
}

#[test]
fn same_faction_overlap_is_ignored() {
    let inf = test_inf();
    let mut world = World::new();
    world.create_now(&body(Vec2(0, 0), 20_000, 3, 50_000));
    world.create_now(&body(Vec2(1_000, 0), 20_000, 3, 10_000));
    let mut collider = Collider;
    let pairs = collider.run(&mut world, &inf, 0);
    assert!(pairs.is_empty());
    assert_eq!(world.hitpoints[0], Some(Hitpoints(50_000)));
    assert_eq!(world.hitpoints[1], Some(Hitpoints(10_000)));
    assert_eq!(world.pending_creates.len(), 0);
}

#[test]
fn mutual_damage_subtracts_the_lesser_health_from_both() {
    let inf = test_inf();
    let mut world = World::new();
    world.create_now(&body(Vec2(0, 0), 10_000, 0, 30_000));
    world.create_now(&body(Vec2(5_000, 0), 10_000, 1, 30_000));
    let mut collider = Collider;
    let pairs = collider.run(&mut world, &inf, 0);
    assert_eq!(pairs.len(), 2);
    assert_eq!(world.hitpoints[0], Some(Hitpoints(0)));
    assert_eq!(world.hitpoints[1], Some(Hitpoints(0)));
}

#[test]
fn deleted_entity_is_visible_until_maintain() {
    let mut world = World::new();
    let mut d = EntityDescriptor::empty();
    d.hitpoints = Some(Hitpoints(0));
    d.spatial = Some(Spatial { position: Vec2(7, 8), angle: Angle(0), lean: 0 });
    let e = world.create_now(&d);
    let mut cleanup = Cleanup::new();
    cleanup.run(&mut world, 100);
    assert!(world.is_alive(e));
    assert_eq!(world.spatial[e.index], Some(Spatial { position: Vec2(7, 8), angle: Angle(0), lean: 0 }));
    assert_eq!(world.pending_deletes.len(), 1);
    world.maintain();
    assert!(!world.is_alive(e));
    assert_eq!(world.pending_deletes.len(), 0);
}

#[test]
fn expired_lifetime_is_cleaned_up() {
    let mut world = World::new();
    let mut d = EntityDescriptor::empty();
    d.lifetime = Some(Lifetime(500));
    let e = world.create_now(&d);
    let mut cleanup = Cleanup::new();
    cleanup.run(&mut world, 499);
    assert_eq!(world.pending_deletes.len(), 0);
    cleanup.run(&mut world, 500);
    assert_eq!(world.pending_deletes.len(), 1);
    world.maintain();
    assert!(!world.is_alive(e));
}

#[test]
fn strafe_approach_reaches_the_desired_velocity() {
    let mut world = World::new();
    world.create_now(&drifter(
        Vec2(500_000, 500_000),
        Vec2(100_000, 0),
        Vec2(1000, 0),
        Vec2(0, 0),
        InertialMotionType::StrafeVector,
    ));
    let mut inertia = Inertia;
    inertia.run(&mut world, 1000);
    let ine = world.inertial[0].unwrap();
    assert_eq!(ine.v_current, Vec2(100_000, 0));
    let sp = world.spatial[0].unwrap();
    assert_eq!(sp.position, Vec2(600_000, 500_000));
}

#[test]
fn speed_never_exceeds_the_maximum() {
    let mut world = World::new();
    world.create_now(&drifter(
        Vec2(500_000, 500_000),
        Vec2(100_000, 80_000),
        Vec2(1000, -700),
        Vec2(60_000, 40_000),
        InertialMotionType::FollowVector,
    ));
    let cap = {
        let ine = world.inertial[0].unwrap();
        ine.v_max.0 * ine.v_max.0 + ine.v_max.1 * ine.v_max.1
    };
    let mut inertia = Inertia;
    for _ in 0..20 {
        inertia.run(&mut world, 250);
        let v = world.inertial[0].unwrap().v_current;
        assert!(v.0 * v.0 + v.1 * v.1 <= cap);
    }
}

#[test]
fn turning_is_limited_to_the_angular_ceiling() {
    let mut world = World::new();
    world.create_now(&drifter(
        Vec2(500_000, 500_000),
        Vec2(100_000, 100_000),
        Vec2(0, 1000),
        Vec2(100_000, 0),
        InertialMotionType::FollowVector,
    ));
    let mut inertia = Inertia;
    inertia.run(&mut world, 100);
    // The old velocity heading is zero; the desired direction is a quarter
    // turn away, far beyond what one short frame may turn.
    let a = world.spatial[0].unwrap().angle.0;
    assert!(a > 0);
    assert!(a <= 760);
}

#[test]
fn boundary_reflection_negates_the_crossed_component() {
    let mut world = World::new();
    world.create_now(&drifter(
        Vec2(1_915_000, 500_000),
        Vec2(100_000, 0),
        Vec2(1000, 0),
        Vec2(100_000, 0),
        InertialMotionType::Const,
    ));
    let mut inertia = Inertia;
    inertia.run(&mut world, 100);
    let sp = world.spatial[0].unwrap();
    let ine = world.inertial[0].unwrap();
    assert_eq!(sp.position, Vec2(1_920_000, 500_000));
    assert_eq!(ine.v_current, Vec2(-100_000, 0));
    assert_eq!(ine.v_fraction, Vec2(-1000, 0));
    assert_eq!(sp.angle, Angle(PI_M));
}

fn gunner(pos: Vec2, input_id: u32) -> EntityDescriptor {
    let mut d = drifter(pos, Vec2(100_000, 100_000), Vec2(0, 0), Vec2(0, 0), InertialMotionType::FollowVector);
    d.controlled = Some(Controlled { input_id });
    d.shooter = Some(Shooter { interval: Periodic::new(0, 200), spawner: SpawnerId(0) });
    d.bounding = Some(Bounding { radius: 5_000, faction: FactionId(0) });
    d.hitpoints = Some(Hitpoints(50_000));
    d
}

#[test]
fn shooter_fires_only_when_the_cooldown_has_elapsed() {
    let inf = test_inf();
    let mut world = World::new();
    world.create_now(&gunner(Vec2(500_000, 500_000), 1));
    let inputs = vec![InputSample {
        input_id: 1,
        v_fraction: Vec2(0, 0),
        shoot: true,
        strafe: false,
        rotate: false,
    }];
    let mut control = Control::new();
    control.run(&mut world, &inf, &inputs, true, 100);
    assert_eq!(world.pending_creates.len(), 0);
    control.run(&mut world, &inf, &inputs, true, 200);
    assert_eq!(world.pending_creates.len(), 1);
    control.run(&mut world, &inf, &inputs, true, 300);
    assert_eq!(world.pending_creates.len(), 1);
    control.run(&mut world, &inf, &inputs, true, 400);
    assert_eq!(world.pending_creates.len(), 2);
}

#[test]
fn held_modifiers_select_the_motion_mode() {
    let inf = test_inf();
    let mut world = World::new();
    world.create_now(&gunner(Vec2(500_000, 500_000), 2));
    let inputs = vec![InputSample {
        input_id: 2,
        v_fraction: Vec2(700, -300),
        shoot: false,
        strafe: true,
        rotate: false,
    }];
    let mut control = Control::new();
    control.run(&mut world, &inf, &inputs, true, 0);
    let ine = world.inertial[0].unwrap();
    assert_eq!(ine.motion_type, InertialMotionType::StrafeVector);
    assert_eq!(ine.v_fraction, Vec2(700, -300));
}

#[test]
fn withheld_input_authors_no_intent() {
    let inf = test_inf();
    let mut world = World::new();
    world.create_now(&gunner(Vec2(500_000, 500_000), 1));
    let inputs = vec![InputSample {
        input_id: 1,
        v_fraction: Vec2(1000, 0),
        shoot: true,
        strafe: false,
        rotate: false,
    }];
    let mut control = Control::new();
    control.run(&mut world, &inf, &inputs, false, 200);
    assert_eq!(world.pending_creates.len(), 0);
    assert_eq!(world.inertial[0].unwrap().v_fraction, Vec2(0, 0));
}

#[test]
fn ai_offsets_to_the_side_nearer_its_heading() {
    let to_target = Vec2(-100_000, 0);
    let leaning_down = offset_side(to_target, Vec2(1000, 10));
    assert_eq!(leaning_down, Vec2(0, 100_000));
    let leaning_up = offset_side(to_target, Vec2(1000, -10));
    assert_eq!(leaning_up, Vec2(0, -100_000));
    let tie = offset_side(to_target, Vec2(1000, 0));
    assert_eq!(tie, Vec2(0, 100_000));
}

fn seeker(pos: Vec2, heading: Vec2) -> EntityDescriptor {
    let mut d = drifter(pos, Vec2(100_000, 100_000), heading, Vec2(0, 0), InertialMotionType::FollowVector);
    d.computed = Some(Computed {});
    d.shooter = Some(Shooter { interval: Periodic::new(0, 200), spawner: SpawnerId(0) });
    d.bounding = Some(Bounding { radius: 5_000, faction: FactionId(2) });
    d.hitpoints = Some(Hitpoints(50_000));
    d
}

#[test]
fn ai_steers_beside_the_player() {
    let inf = test_inf();
    let mut world = World::new();
    world.create_now(&gunner(Vec2(0, 0), 1));
    world.create_now(&seeker(Vec2(100_000, 0), Vec2(1000, 10)));
    let mut compute = Compute;
    compute.run(&mut world, &inf, 200);
    let fr = world.inertial[1].unwrap().v_fraction;
    assert!(fr.0 < 0);
    assert!(fr.1 > 0);
    assert_eq!(world.pending_creates.len(), 1);
}

#[test]
fn spawner_queues_a_bundle_and_a_sound() {
    let inf = test_inf();
    let mut world = World::new();
    spawner(
        &mut world,
        &inf,
        SpawnerId(0),
        Angle(0),
        Some(Vec2(300_000, 400_000)),
        None,
        Some(FactionId(9)),
        250,
    );
    assert_eq!(world.pending_creates.len(), 1);
    let bundle = world.pending_creates[0];
    assert_eq!(bundle.spatial.unwrap().position, Vec2(300_000, 400_000));
    assert_eq!(bundle.lifetime, Some(Lifetime(750)));
    assert_eq!(world.sounds, vec![String::from("boom")]);
    world.maintain();
    assert!(world.alive[0]);
}

#[test]
fn distant_bodies_never_collide() {
    let inf = test_inf();
    let mut world = World::new();
    world.create_now(&body(Vec2(0, 0), 5_000, 0, 50_000));
    world.create_now(&body(Vec2(100_000, 0), 5_000, 1, 10_000));
    let mut collider = Collider;
    let pairs = collider.run(&mut world, &inf, 0);
    assert!(pairs.is_empty());
    assert_eq!(world.hitpoints[0], Some(Hitpoints(50_000)));
    assert_eq!(world.hitpoints[1], Some(Hitpoints(10_000)));
}

#[test]
fn pickup_rewires_a_matching_shooter() {
    let mut inf = test_inf();
    inf.spawner.insert(
        String::from("double-burst"),
        SpawnerDescriptor {
            dispatch: SpawnerDispatch::All,
            entities: vec![SpawnerParameters {
                position: Vec2(0, 0),
                angle: Angle(0),
                entity: Some(String::from("debris")),
                sound: None,
            }],
        },
    );
    let mut world = World::new();
    let mut pickup = EntityDescriptor::empty();
    pickup.spatial = Some(Spatial { position: Vec2(0, 0), angle: Angle(0), lean: 0 });
    pickup.powerup = Some(Powerup { radius: 10_000, faction: FactionId(0), spawner: SpawnerId(1) });
    let p = world.create_now(&pickup);
    let g = world.create_now(&gunner(Vec2(5_000, 0), 1));
    let stranger = world.create_now(&{
        let mut d = gunner(Vec2(6_000, 0), 2);
        d.bounding = Some(Bounding { radius: 5_000, faction: FactionId(4) });
        d
    });
    let mut upgrader = Upgrader;
    let ms = upgrader.run(&mut world, &inf, 0);
    assert_eq!(ms, vec![(p.index, g.index)]);
    assert_eq!(world.shooter[g.index].unwrap().spawner, SpawnerId(1));
    assert_eq!(world.shooter[stranger.index].unwrap().spawner, SpawnerId(0));
    assert_eq!(world.pending_deletes.len(), 1);
    world.maintain();
    assert!(!world.is_alive(p));
    assert!(world.is_alive(g));
}

#[test]
fn level_spawn_resolves_names() {
    let mut level = Level::new(test_inf());
    let missing = level.spawn(&String::from("no-such-blueprint"), None, None, None);
    assert!(missing.is_none());
    let e = level.spawn(&String::from("debris"), Some(Vec2(1, 2)), None, None);
    assert!(e.is_some());
    let e = e.unwrap();
    assert!(level.world.is_alive(e));
    assert_eq!(level.world.spatial[e.index].unwrap().position, Vec2(1, 2));
}

#[test]
fn advance_runs_a_full_frame() {
    let mut level = Level::new(test_inf());
    level.spawn(&String::from("debris"), Some(Vec2(5, 5)), None, None);
    let inputs: Vec<InputSample> = Vec::new();
    level.advance(100, 100, true, false, &inputs);
    assert_eq!(level.world.pending_creates.len(), 0);
    assert_eq!(level.world.pending_deletes.len(), 0);
    assert_eq!(level.state.age, 100);
    assert_eq!(level.state.delta, 100);
    level.advance(0, 600, true, false, &inputs);
    assert_eq!(level.state.delta, 1);
    assert!(!level.world.alive[0]);
    let sounds = level.take_sounds();
    assert!(sounds.is_empty());
}
