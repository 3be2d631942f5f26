use ecs_world::component::Health;
use ecs_world::component::Name;
use ecs_world::world::World;

#[test]
fn new_world_is_empty() {
    let world = World::new();
    assert_eq!(world.health_components.len(), 0);
    assert_eq!(world.name_components.len(), 0);
}

#[test]
fn columns_grow_in_lockstep() {
    let mut world = World::new();
    world.new_entity(Some(Health(1)), None);
    world.new_entity(None, None);
    world.new_entity(None, Some(Name("Hera")));
    world.new_entity(Some(Health(7)), Some(Name("Apollo")));
    assert_eq!(world.health_components.len(), 4);
    assert_eq!(world.name_components.len(), 4);
}

#[test]
fn query_twice_same_result() {
    let mut world = World::new();
    world.new_entity(Some(Health(3)), Some(Name("Athena")));
    world.new_entity(None, Some(Name("Hermes")));
    world.new_entity(Some(Health(-2)), Some(Name("Hades")));
    let first = world.query_health_name();
    let second = world.query_health_name();
    assert_eq!(first, second);
    let names_first = world.query_name();
    let names_second = world.query_name();
    assert_eq!(names_first, names_second);
}

#[test]
fn join_includes_iff_all_present() {
    let mut world = World::new();
    world.new_entity(Some(Health(10)), Some(Name("Athena")));
    world.new_entity(Some(Health(20)), None);
    world.new_entity(None, Some(Name("Hermes")));
    world.new_entity(None, None);
    world.new_entity(Some(Health(30)), Some(Name("Hades")));
    let joined = world.query_health_name();
    assert_eq!(
        joined,
        vec![(Health(10), Name("Athena")), (Health(30), Name("Hades"))]
    );
}

#[test]
fn results_ascend_by_creation_index() {
    let mut world = World::new();
    world.new_entity(Some(Health(5)), Some(Name("First")));
    world.new_entity(None, Some(Name("Skipped")));
    world.new_entity(Some(Health(6)), Some(Name("Third")));
    let joined = world.query_health_name();
    assert_eq!(joined.len(), 2);
    assert_eq!(joined[0].1, Name("First"));
    assert_eq!(joined[1].1, Name("Third"));
}

#[test]
fn empty_world_any_query_empty() {
    let world = World::new();
    assert!(world.query_health_name().is_empty());
    assert!(world.query_health().is_empty());
    assert!(world.query_name().is_empty());
}

#[test]
fn scenario_icarus_prometheus_zeus() {
    let mut world = World::new();
    world.new_entity(Some(Health(-10)), Some(Name("Icarus")));
    world.new_entity(Some(Health(100)), Some(Name("Prometheus")));
    world.new_entity(None, Some(Name("Zeus")));
    let joined = world.query_health_name();
    assert_eq!(
        joined,
        vec![(Health(-10), Name("Icarus")), (Health(100), Name("Prometheus"))]
    );
}

#[test]
fn scenario_ares_only_name() {
    let mut world = World::new();
    world.new_entity(None, Some(Name("Ares")));
    let joined = world.query_health_name();
    assert!(joined.is_empty());
    let names = world.query_name();
    assert_eq!(names, vec![Name("Ares")]);
}

#[test]
fn single_column_queries_keep_values_and_order() {
    let mut world = World::new();
    world.new_entity(Some(Health(-1)), None);
    world.new_entity(None, Some(Name("Nyx")));
    world.new_entity(Some(Health(2)), Some(Name("Helios")));
    let healths = world.query_health();
    assert_eq!(healths, vec![Health(-1), Health(2)]);
    let names = world.query_name();
    assert_eq!(names, vec![Name("Nyx"), Name("Helios")]);
}
