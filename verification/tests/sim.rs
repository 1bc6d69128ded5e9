use sea_of_friends::assets::FishBehavior;
use sea_of_friends::assets::FishConfig;
use sea_of_friends::assets::FishConfigs;
use sea_of_friends::assets::SpawnCircle;
use sea_of_friends::fish::congregate;
use sea_of_friends::fish::Fish;
use sea_of_friends::fishing::advance_fishing;
use sea_of_friends::fishing::FishingState;
use sea_of_friends::fx::fx_cos;
use sea_of_friends::fx::fx_sin;
use sea_of_friends::fx::isqrt;
use sea_of_friends::fx::normalize_angle;
use sea_of_friends::geometry::to_segment;
use sea_of_friends::geometry::vec_to;
use sea_of_friends::interpolation::Interpolated;
use sea_of_friends::model::Event;
use sea_of_friends::model::Id;
use sea_of_friends::model::IdGen;
use sea_of_friends::model::Message;
use sea_of_friends::model::Model;
use sea_of_friends::motion::update_movement;
use sea_of_friends::motion::MovementProps;
use sea_of_friends::motion::Position;
use sea_of_friends::player::push_out;
use sea_of_friends::player::Player;
use sea_of_friends::terrain::Terrain;
use sea_of_friends::vec2::Vec2Fx;

/// A 1x1 terrain whose single pixel has the given RGBA bytes.
fn tiny_terrain(px: [u8; 4]) -> Terrain {
    Terrain::from_rgba(1, 1, px.to_vec()).expect("valid grid")
}

/// A terrain that is open deep water everywhere: zero height channel and
/// a full open-water channel.
fn water_terrain() -> Terrain {
    tiny_terrain([0, 0, 0, 255])
}

/// A species catalog with one zone-bound idle species.
fn one_species(behavior: FishBehavior, inner: Option<i64>) -> FishConfigs {
    FishConfigs::from_list(vec![FishConfig {
        name: String::from("carp"),
        cost: 1,
        spawn_circle: SpawnCircle {
            center: Vec2Fx { x: 0, y: 0 },
            radius: 5000,
            inner_radius: inner,
            behavior,
            reversed: None,
        },
        count: 3,
        size: 1000,
    }])
    .expect("valid catalog")
}

#[test]
fn test_interpolation() {
    let mut i = Interpolated::new(0, 1000);
    assert!(i.get() == 0);
    assert!(i.get_derivative() == 1000);
    i.server_update(1000, 1000);
    assert!(i.get() == 0);
    assert!(i.get_derivative() == 1000);
    i.update(1000);
    assert!(i.get() == 1000);
    assert!(i.get_derivative() == 1000);
    i.update(-500);
    assert!(i.get() == 500);
    assert!(i.get_derivative() == 1000);
}

#[test]
fn interpolator_meets_new_sample_exactly() {
    // A curve mid-flight takes a new authoritative sample: at the start of
    // the window the rendered value and slope are continuous, at the end
    // the sample is met exactly.
    let mut i = Interpolated::new(2000, -500);
    i.update(300);
    let before_pos = i.get();
    let before_vel = i.get_derivative();
    i.server_update(7000, 250);
    assert_eq!(i.get(), before_pos);
    assert_eq!(i.get_derivative(), before_vel);
    i.update(1000);
    assert_eq!(i.get(), 7000);
    assert_eq!(i.get_derivative(), 250);
}

#[test]
fn hold_position_keeps_rest_state() {
    // A player at the origin with no input: after one tick with the target
    // at its own position, it has not moved and its speed stays under a
    // tenth of a unit.
    let mut pos = Position::at(Vec2Fx { x: 0, y: 0 }, 0);
    let props = MovementProps {
        max_speed: 2000,
        max_rotation_speed: 2000,
        angular_acceleration: 1000,
        acceleration: 1000,
        water: true,
    };
    update_movement(&mut pos, Vec2Fx { x: 0, y: 0 }, props, 100);
    assert_eq!(pos.pos, Vec2Fx { x: 0, y: 0 });
    let speed_sqr = pos.vel.x * pos.vel.x + pos.vel.y * pos.vel.y;
    assert!(speed_sqr < 100 * 100);
}

#[test]
fn hold_position_damps_velocity() {
    // Steering toward one's own position never grows the speed.
    let mut pos = Position::at(Vec2Fx { x: 1000, y: 2000 }, 0);
    pos.vel = Vec2Fx { x: 900, y: -400 };
    let before = pos.vel.x * pos.vel.x + pos.vel.y * pos.vel.y;
    let target = pos.pos;
    let props = MovementProps {
        max_speed: 2000,
        max_rotation_speed: 2000,
        angular_acceleration: 1000,
        acceleration: 1000,
        water: false,
    };
    update_movement(&mut pos, target, props, 100);
    let after = pos.vel.x * pos.vel.x + pos.vel.y * pos.vel.y;
    assert!(after <= before);
}

#[test]
fn collision_separates_players_exactly() {
    // Two players of radius one unit, half a unit apart in open water: one
    // resolution pass leaves them exactly two units apart with the closing
    // velocity component removed.
    let mut pos = Position::at(Vec2Fx { x: 500, y: 0 }, 0);
    pos.vel = Vec2Fx { x: -300, y: 0 };
    let other = Vec2Fx { x: 0, y: 0 };
    let delta = Vec2Fx {
        x: pos.pos.x - other.x,
        y: pos.pos.y - other.y,
    };
    push_out(&mut pos, delta, 2000);
    assert_eq!(pos.pos, Vec2Fx { x: 2000, y: 0 });
    assert_eq!(pos.vel, Vec2Fx { x: 0, y: 0 });
}

#[test]
fn casting_lands_in_water_deterministically() {
    // A cast whose per-state timer exceeds one second over open water
    // moves to Waiting, and waiting never reverts on its own.
    let b = Vec2Fx { x: 3000, y: 0 };
    let (state, timer, landed) = advance_fishing(FishingState::Casting(b), 950, 100, true);
    assert_eq!(state, FishingState::Waiting(b));
    assert_eq!(timer, 0);
    assert_eq!(landed, Some((b, true)));
    // The wait holds, however long the timer runs.
    let (state2, _, landed2) = advance_fishing(state, 999, 5000, true);
    assert_eq!(state2, FishingState::Waiting(b));
    assert_eq!(landed2, None);
    let (state3, _, _) = advance_fishing(state2, 1_000_000, 1_000_000, false);
    assert_eq!(state3, FishingState::Waiting(b));
}

#[test]
fn casting_on_land_returns_to_idle() {
    let b = Vec2Fx { x: 3000, y: 0 };
    let (state, _, landed) = advance_fishing(FishingState::Casting(b), 1000, 100, false);
    assert_eq!(state, FishingState::Idle);
    assert_eq!(landed, Some((b, false)));
}

#[test]
fn reeling_cycle_advances() {
    let b = Vec2Fx { x: 1000, y: 1000 };
    let f = Id(7);
    let (s1, _, _) = advance_fishing(
        FishingState::PreReeling { fish: f, bobber_pos: b },
        1000,
        100,
        false,
    );
    assert_eq!(s1, FishingState::Reeling { fish: f, bobber_pos: b });
    let (s2, _, _) = advance_fishing(s1, 1000, 100, false);
    assert_eq!(s2, FishingState::Waiting(b));
}

#[test]
fn inner_radius_pushes_outward() {
    // A creature with an inner exclusion radius of one unit and a home
    // radius of five units, half a unit from the zone center, feels a
    // nonzero outward force this tick.
    let configs = one_species(FishBehavior::Idle, Some(1000));
    let circle = configs.configs[0].spawn_circle;
    let fish = Fish::new(Id(0), 0, Vec2Fx { x: 500, y: 0 });
    let terrain = water_terrain();
    let force = congregate(&fish, &circle, &terrain, 100);
    assert_eq!(force, Vec2Fx { x: 50, y: 0 });
    // Pointing outward: the same sign as the offset from the center.
    assert!(force.x > 0);
}

#[test]
fn zone_force_restores_from_outside() {
    // Beyond the home radius the force points back toward the center.
    let configs = one_species(FishBehavior::Idle, None);
    let circle = configs.configs[0].spawn_circle;
    let fish = Fish::new(Id(0), 0, Vec2Fx { x: 7000, y: 0 });
    let terrain = water_terrain();
    let force = congregate(&fish, &circle, &terrain, 100);
    assert!(force.x < 0);
    assert_eq!(force.y, 0);
}

#[test]
fn nearest_vector_query_is_idempotent() {
    let segments = vec![
        (Vec2Fx { x: 0, y: 0 }, Vec2Fx { x: 2000, y: 0 }),
        (Vec2Fx { x: 0, y: 5000 }, Vec2Fx { x: 2000, y: 5000 }),
    ];
    let p = Vec2Fx { x: 1000, y: 1000 };
    let first = vec_to(&segments, p);
    let second = vec_to(&segments, p);
    assert_eq!(first, second);
    assert_eq!(first, Vec2Fx { x: 0, y: -1000 });
}

#[test]
fn segment_query_projects_perpendicular() {
    let r = to_segment(
        Vec2Fx { x: 0, y: 0 },
        Vec2Fx { x: 2000, y: 0 },
        Vec2Fx { x: 1000, y: 1000 },
    );
    assert_eq!(r, Vec2Fx { x: 0, y: -1000 });
    // Beyond an endpoint the endpoint answers.
    let e = to_segment(
        Vec2Fx { x: 0, y: 0 },
        Vec2Fx { x: 2000, y: 0 },
        Vec2Fx { x: 3000, y: 0 },
    );
    assert_eq!(e, Vec2Fx { x: -1000, y: 0 });
    // A degenerate segment degrades to an endpoint offset.
    let d = to_segment(
        Vec2Fx { x: 500, y: 500 },
        Vec2Fx { x: 500, y: 500 },
        Vec2Fx { x: 500, y: 0 },
    );
    assert_eq!(d, Vec2Fx { x: 0, y: 500 });
}

#[test]
fn angle_and_sqrt_formulas() {
    assert_eq!(normalize_angle(0), 0);
    assert_eq!(normalize_angle(6284), 0);
    assert_eq!(normalize_angle(4000), 4000 - 6284);
    assert_eq!(normalize_angle(-4000), 6284 - 4000);
    assert_eq!(isqrt(0), 0);
    assert_eq!(isqrt(15), 3);
    assert_eq!(isqrt(16), 4);
    assert_eq!(fx_sin(0), 0);
    assert_eq!(fx_sin(1571), 1000);
    assert_eq!(fx_cos(0), 1000);
    assert_eq!(fx_sin(-1571), -1000);
}

#[test]
fn terrain_heights_follow_the_grid() {
    let deep = water_terrain();
    assert_eq!(deep.get_height(Vec2Fx { x: 0, y: 0 }), -1500);
    assert_eq!(deep.get_channel_value(3, Vec2Fx { x: 0, y: 0 }), 1000);
    let high = tiny_terrain([255, 0, 0, 0]);
    assert_eq!(high.get_height(Vec2Fx { x: 0, y: 0 }), 500);
    assert_eq!(high.get_channel_value(3, Vec2Fx { x: 0, y: 0 }), 0);
}

#[test]
fn terrain_rejects_bad_dimensions() {
    assert!(Terrain::from_rgba(0, 1, vec![]).is_none());
    assert!(Terrain::from_rgba(1, 1, vec![0, 0, 0]).is_none());
    assert!(Terrain::from_rgba(1, 1, vec![0, 0, 0, 0, 0]).is_none());
}

#[test]
fn terrain_decodes_a_png_round_trip() {
    // Encode a 2x1 image with the image crate, then bring it back in
    // through the library's decoder: the samples must match the pixels,
    // not the encoded bytes.
    let mut img = image::RgbaImage::new(2, 1);
    img.put_pixel(0, 0, image::Rgba([255, 0, 0, 255]));
    img.put_pixel(1, 0, image::Rgba([0, 0, 0, 255]));
    let mut bytes: Vec<u8> = Vec::new();
    img.write_to(
        &mut std::io::Cursor::new(&mut bytes),
        image::ImageFormat::Png,
    )
    .expect("encode");
    assert!(bytes.len() != 8);
    let terrain = Terrain::from_encoded(&bytes).expect("decode");
    assert_eq!(terrain.dimensions(), (2, 1));
    // The far west of the world samples the first (high) pixel.
    assert_eq!(terrain.get_height(Vec2Fx { x: -100_000, y: 0 }), 500);
    // The far east samples the second (deep) pixel.
    assert_eq!(terrain.get_height(Vec2Fx { x: 100_000, y: 0 }), -1500);
}

#[test]
fn id_generation_is_sequential() {
    let mut g = IdGen::new();
    assert_eq!(g.gen(), Id(0));
    assert_eq!(g.gen(), Id(1));
    let d = IdGen::default();
    let mut d = d;
    assert_eq!(d.gen(), Id(0));
}

#[test]
fn ping_answers_pong() {
    let configs = one_species(FishBehavior::Idle, None);
    let mut m = Model::init();
    let mut events: Vec<Event> = Vec::new();
    let r = m.handle_message(&configs, &mut events, &Id(0), Message::Ping, 0);
    assert_eq!(r, vec![Event::Pong]);
    assert!(events.is_empty());
}

#[test]
fn catch_removes_the_fish_once() {
    let configs = one_species(FishBehavior::Idle, None);
    let mut m = Model::init();
    let mut events: Vec<Event> = Vec::new();
    let r = m.handle_message(
        &configs,
        &mut events,
        &Id(9),
        Message::SpawnFish {
            index: 0,
            pos: Vec2Fx { x: 100, y: 200 },
        },
        0,
    );
    assert!(r.is_empty());
    assert_eq!(m.fishes.len(), 1);
    let fish_id = m.fishes[0].id;
    m.handle_message(&configs, &mut events, &Id(9), Message::Catch(fish_id), 0);
    assert_eq!(m.fishes.len(), 0);
    assert_eq!(
        events,
        vec![Event::CaughtFish {
            player: Id(9),
            fish: fish_id,
            fish_type: 0,
            position: Vec2Fx { x: 100, y: 200 },
        }]
    );
    // A second catch of the same identity is a soft no-op.
    let before = events.len();
    m.handle_message(&configs, &mut events, &Id(9), Message::Catch(fish_id), 0);
    assert_eq!(events.len(), before);
}

#[test]
fn malformed_spawn_is_dropped() {
    let configs = one_species(FishBehavior::Idle, None);
    let mut m = Model::init();
    let mut events: Vec<Event> = Vec::new();
    m.handle_message(
        &configs,
        &mut events,
        &Id(1),
        Message::SpawnFish {
            index: 5,
            pos: Vec2Fx { x: 0, y: 0 },
        },
        0,
    );
    assert_eq!(m.fishes.len(), 0);
}

#[test]
fn spawned_group_stays_in_the_zone() {
    let configs = one_species(FishBehavior::Idle, Some(1000));
    let mut m = Model::init();
    m.populate(&configs);
    assert_eq!(m.fishes.len(), 3);
    for f in &m.fishes {
        let d2 = f.pos.pos.x * f.pos.pos.x + f.pos.pos.y * f.pos.pos.y;
        // Within the home radius (with a little slack for rounding).
        assert!(d2 <= 5100i64 * 5100);
    }
}

#[test]
fn tick_preserves_the_population() {
    let configs = one_species(FishBehavior::Idle, None);
    let terrain = water_terrain();
    let mut m = Model::init();
    m.populate(&configs);
    let n = m.fishes.len();
    let mut events: Vec<Event> = Vec::new();
    for _ in 0..5 {
        m.tick(&configs, &terrain, &mut events);
    }
    assert_eq!(m.fishes.len(), n);
    assert_eq!(m.time, 500);
}

#[test]
fn zone_bound_species_stays_near_home() {
    // Zone-bound creatures left alone for many ticks keep within the home
    // radius plus a small margin.
    let configs = one_species(FishBehavior::Idle, None);
    let terrain = water_terrain();
    let mut m = Model::init();
    let mut events: Vec<Event> = Vec::new();
    for pos in [
        Vec2Fx { x: 4000, y: 0 },
        Vec2Fx { x: 4200, y: 100 },
        Vec2Fx { x: 0, y: 3000 },
    ] {
        m.handle_message(
            &configs,
            &mut events,
            &Id(0),
            Message::SpawnFish { index: 0, pos },
            0,
        );
    }
    let rolls = vec![1u64; 3];
    for _ in 0..50 {
        m.update_fishes_with(&configs, &terrain, 100, &mut events, &rolls);
    }
    for f in &m.fishes {
        let d2 = f.pos.pos.x * f.pos.pos.x + f.pos.pos.y * f.pos.pos.y;
        assert!(d2 <= 6500i64 * 6500);
    }
}

#[test]
fn players_connect_and_disconnect() {
    let configs = one_species(FishBehavior::Idle, None);
    let mut m = Model::init();
    let mut events: Vec<Event> = Vec::new();
    let id = m.new_player(&mut events, 42);
    assert_eq!(m.players.len(), 1);
    assert_eq!(m.players[0].id, id);
    // The player picked up a catch; dropping them returns it to the world.
    m.players[0].inventory.push(0);
    m.drop_player(&configs, &mut events, &id);
    assert_eq!(m.players.len(), 0);
    assert_eq!(m.fishes.len(), 1);
    // Dropping an unknown identity is a no-op.
    m.drop_player(&configs, &mut events, &Id(999));
    assert_eq!(m.players.len(), 0);
}

#[test]
fn update_replaces_own_record_only() {
    let configs = one_species(FishBehavior::Idle, None);
    let mut m = Model::init();
    let mut events: Vec<Event> = Vec::new();
    let id = m.new_player(&mut events, 1);
    let mut record = m.players[0].clone();
    record.name = String::from("sailor");
    record.boat_level = 2;
    m.handle_message(&configs, &mut events, &id, Message::Update(record), 0);
    assert_eq!(m.players[0].name, "sailor");
    assert_eq!(m.players[0].boat_level, 2);
    // A record claiming someone else's identity is ignored.
    let mut fake = m.players[0].clone();
    fake.id = Id(777);
    fake.name = String::from("imp");
    m.handle_message(&configs, &mut events, &id, Message::Update(fake), 0);
    assert_eq!(m.players[0].name, "sailor");
}

#[test]
fn dangling_seat_reverts_to_origin() {
    let terrain = water_terrain();
    let geometry = sea_of_friends::geometry::create_map_geometry(&terrain);
    let config = sea_of_friends::assets::Config {
        inventory_size: 10,
        fish_shops: vec![],
        boat_types: vec![],
    };
    let mut p = Player::new(Id(1), Vec2Fx { x: 4000, y: 0 }, 0);
    p.seated = Some(sea_of_friends::player::Seated {
        player: Id(55),
        seat: 0,
    });
    let mut timer: i64 = 0;
    let others: Vec<Player> = Vec::new();
    let fishes: Vec<Fish> = Vec::new();
    let control = sea_of_friends::player::PlayerMovementControl::GoDirection(Vec2Fx { x: 0, y: 0 });
    sea_of_friends::player::update_my_player(
        &mut p,
        &mut timer,
        &control,
        &others,
        &fishes,
        &terrain,
        &geometry,
        &config,
        100,
    );
    assert!(p.seated.is_none());
    assert_eq!(p.pos.pos, Vec2Fx { x: 0, y: 0 });
}

#[test]
fn broken_tether_returns_to_idle() {
    // A player attached to someone who no longer exists self-heals to
    // idle and announces the snap.
    let terrain = water_terrain();
    let geometry = sea_of_friends::geometry::create_map_geometry(&terrain);
    let config = sea_of_friends::assets::Config {
        inventory_size: 10,
        fish_shops: vec![],
        boat_types: vec![],
    };
    let mut p = Player::new(Id(1), Vec2Fx { x: 0, y: 0 }, 0);
    p.fishing_state = FishingState::Attached(Id(55));
    let mut timer: i64 = 0;
    let others: Vec<Player> = Vec::new();
    let fishes: Vec<Fish> = Vec::new();
    let control = sea_of_friends::player::PlayerMovementControl::GoDirection(Vec2Fx { x: 0, y: 0 });
    let (sounds, _, _) = sea_of_friends::player::update_my_player(
        &mut p,
        &mut timer,
        &control,
        &others,
        &fishes,
        &terrain,
        &geometry,
        &config,
        100,
    );
    assert_eq!(p.fishing_state, FishingState::Idle);
    assert!(sounds
        .iter()
        .any(|s| s.0 == sea_of_friends::assets::SoundType::StopFishing));
}

#[test]
fn orbit_current_is_tangential() {
    let configs = one_species(FishBehavior::Orbit, None);
    let circle = configs.configs[0].spawn_circle;
    let fish = Fish::new(Id(3), 0, Vec2Fx { x: 4000, y: 0 });
    let v = sea_of_friends::fish::currents(&fish, &circle, 100, 0);
    // dist = center - pos = (-4000, 0): the orbit current is
    // (dist.y, -dist.x) / radius / 2 = (0, 4000) / 5 / 2 in units.
    assert_eq!(v, Vec2Fx { x: 0, y: 400 });
}

#[test]
fn idle_species_feels_no_current() {
    let configs = one_species(FishBehavior::Idle, None);
    let circle = configs.configs[0].spawn_circle;
    let fish = Fish::new(Id(3), 0, Vec2Fx { x: 4000, y: 0 });
    let v = sea_of_friends::fish::currents(&fish, &circle, 100, 12_345);
    assert_eq!(v, Vec2Fx { x: 0, y: 0 });
}

#[test]
fn selling_needs_a_nearby_shop() {
    let config = sea_of_friends::assets::Config {
        inventory_size: 10,
        fish_shops: vec![Vec2Fx { x: 5000, y: 0 }],
        boat_types: vec![],
    };
    assert!(sea_of_friends::player::can_sell_fish(Vec2Fx { x: 4000, y: 0 }, &config));
    assert!(!sea_of_friends::player::can_sell_fish(Vec2Fx { x: 0, y: 0 }, &config));
    let empty = sea_of_friends::assets::Config {
        inventory_size: 10,
        fish_shops: vec![],
        boat_types: vec![],
    };
    assert!(!sea_of_friends::player::can_sell_fish(Vec2Fx { x: 0, y: 0 }, &empty));
}

#[test]
fn client_views_follow_snapshots() {
    let mut views = sea_of_friends::client::ClientViews::new();
    let mut events: Vec<Event> = Vec::new();
    let mut m = Model::init();
    let pid = m.new_player(&mut events, 0);
    m.players[0].pos.pos = Vec2Fx { x: 3000, y: -2000 };
    let fishes: Vec<Fish> = Vec::new();
    views.reconcile(&m.players, &fishes);
    // A fresh view starts exactly at the authoritative pose.
    let rendered = views.get(pid).expect("view exists");
    assert_eq!(rendered.pos, Vec2Fx { x: 3000, y: -2000 });
    // A second snapshot: a full blend window later the new sample is met.
    m.players[0].pos.pos = Vec2Fx { x: 5000, y: 0 };
    m.players[0].pos.vel = Vec2Fx { x: 0, y: 0 };
    views.reconcile(&m.players, &fishes);
    views.advance(1000);
    let settled = views.get(pid).expect("view exists");
    assert_eq!(settled.pos, Vec2Fx { x: 5000, y: 0 });
    // A departed entity loses its view.
    m.players.clear();
    views.reconcile(&m.players, &fishes);
    assert!(views.get(pid).is_none());
}

#[test]
fn caught_fish_bank_into_inventory() {
    let mut caught = vec![
        sea_of_friends::client::CaughtFish {
            id: Id(1),
            index: 0,
            player: Id(10),
            lifetime: 950,
            caught_at: Vec2Fx { x: 0, y: 0 },
        },
        sea_of_friends::client::CaughtFish {
            id: Id(2),
            index: 1,
            player: Id(11),
            lifetime: 950,
            caught_at: Vec2Fx { x: 0, y: 0 },
        },
        sea_of_friends::client::CaughtFish {
            id: Id(3),
            index: 2,
            player: Id(10),
            lifetime: 100,
            caught_at: Vec2Fx { x: 0, y: 0 },
        },
    ];
    let mut inventory: Vec<usize> = vec![7];
    sea_of_friends::client::advance_caught(&mut caught, Id(10), 100, &mut inventory);
    // Our own completed catch lands in the inventory; the stranger's
    // vanishes; the young one keeps flying, aged.
    assert_eq!(inventory, vec![7, 0]);
    assert_eq!(caught.len(), 1);
    assert_eq!(caught[0].id, Id(3));
    assert_eq!(caught[0].lifetime, 200);
}

#[test]
fn overfull_inventory_releases_the_oldest() {
    let mut inventory: Vec<usize> = vec![4, 5, 6];
    let released = sea_of_friends::client::overflow_release(&mut inventory, 2);
    assert_eq!(released, Some(4));
    assert_eq!(inventory, vec![5, 6]);
    let kept = sea_of_friends::client::overflow_release(&mut inventory, 2);
    assert_eq!(kept, None);
    assert_eq!(inventory, vec![5, 6]);
}

#[test]
fn isolated_creature_feels_no_flocking() {
    // With no neighbors the cohesion and velocity-matching terms vanish;
    // in particular there is no pull toward the world origin.
    let mut fish = Fish::new(Id(0), 0, Vec2Fx { x: 2000, y: 0 });
    fish.pos.vel = Vec2Fx { x: 800, y: 0 };
    let empty: Vec<Fish> = Vec::new();
    assert_eq!(
        sea_of_friends::fish::flock(&fish, 100, &empty),
        Vec2Fx { x: 0, y: 0 }
    );
    assert_eq!(
        sea_of_friends::fish::match_velocity(&fish, 100, &empty),
        Vec2Fx { x: 0, y: 0 }
    );
}

#[test]
fn zone_oriented_species_chases_its_center() {
    // The zone-oriented tag pulls straight toward the zone center with the
    // full offset vector.
    let configs = one_species(FishBehavior::Kuviseal, None);
    let circle = configs.configs[0].spawn_circle;
    let fish = Fish::new(Id(3), 0, Vec2Fx { x: 4000, y: -1000 });
    let v = sea_of_friends::fish::currents(&fish, &circle, 100, 0);
    assert_eq!(v, Vec2Fx { x: -4000, y: 1000 });
}

#[test]
fn populate_spawns_each_species_count() {
    let configs = one_species(FishBehavior::Idle, None);
    let mut m = Model::init();
    m.populate(&configs);
    assert_eq!(m.fishes.len(), 3);
    assert!(m.fishes.iter().all(|f| f.index == 0));
}

#[test]
fn reel_event_hooks_only_the_waiting_owner() {
    let b = Vec2Fx { x: 1000, y: 0 };
    let me = Id(1);
    let hooked = sea_of_friends::client::apply_reel_event(
        FishingState::Waiting(b),
        me,
        me,
        Id(42),
    );
    assert_eq!(
        hooked,
        FishingState::PreReeling {
            fish: Id(42),
            bobber_pos: b
        }
    );
    // Someone else's reel, or a non-waiting state, changes nothing.
    let other = sea_of_friends::client::apply_reel_event(FishingState::Waiting(b), me, Id(9), Id(42));
    assert_eq!(other, FishingState::Waiting(b));
    let idle = sea_of_friends::client::apply_reel_event(FishingState::Idle, me, me, Id(42));
    assert_eq!(idle, FishingState::Idle);
}

#[test]
fn ping_cadence_waits_for_the_answer() {
    // No answer outstanding: the clock just accumulates.
    let (t1, flag1, send1) = sea_of_friends::client::ping_step(0, 80, false);
    assert_eq!((t1, flag1, send1), (80, false, false));
    // Answered, but the tick has not passed yet.
    let (t2, flag2, send2) = sea_of_friends::client::ping_step(t1, 15, true);
    assert_eq!((t2, flag2, send2), (95, true, false));
    // Answered and a tick has passed: send, and reset.
    let (t3, flag3, send3) = sea_of_friends::client::ping_step(t2, 10, true);
    assert_eq!((t3, flag3, send3), (0, false, true));
}
