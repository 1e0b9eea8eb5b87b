use ecs::component::Health;
use ecs::entity::WorldRef;
use ecs::registry::WorldRegistry;
use ecs::world::World;

#[test]
fn worlds_get_distinct_references() {
    let mut reg: WorldRegistry<Health> = WorldRegistry::new();
    let a = World::new(&mut reg);
    let b = World::new(&mut reg);
    assert_ne!(a, b);
    assert_eq!(reg.world_count(), 2);
    assert_eq!(reg.resolve(a).unwrap().self_ref(), a);
    assert_eq!(reg.resolve(b).unwrap().self_ref(), b);
}

#[test]
fn entity_reference_resolves_to_its_world() {
    let mut reg: WorldRegistry<Health> = WorldRegistry::new();
    let r = World::new(&mut reg);
    let world = reg.resolve_mut(r).expect("a new world resolves");
    let e = world.new_entity();
    world.entity_mut(e).unwrap().add_component(Health { hp: 3 });
    let back = reg.resolve(r).unwrap().entity(e).unwrap().world_ref();
    assert_eq!(back, r);
    let home = reg.resolve(back).unwrap();
    assert_eq!(home.entity(e).unwrap().get_component("Health"), Some(&Health { hp: 3 }));
}

#[test]
fn removed_world_no_longer_resolves() {
    let mut reg: WorldRegistry<Health> = WorldRegistry::new();
    let r = World::new(&mut reg);
    let e = reg.resolve_mut(r).unwrap().new_entity();
    let back = reg.resolve(r).unwrap().entity(e).unwrap().world_ref();
    assert!(reg.remove_world(r));
    assert!(reg.resolve(back).is_none());
    let again = World::new(&mut reg);
    assert_ne!(again, back);
    assert!(reg.resolve(back).is_none());
    assert!(!reg.remove_world(back));
    assert_eq!(reg.world_count(), 1);
}

#[test]
fn new_world_resolves_to_itself_at_once() {
    let mut reg: WorldRegistry<Health> = WorldRegistry::new();
    assert!(reg.resolve(WorldRef { world_id: 1 }).is_none());
    let r = World::new(&mut reg);
    let w = reg.resolve(r).expect("a new world resolves");
    assert_eq!(w.self_ref(), r);
    assert_eq!(w.entity_count(), 0);
    assert!(reg.resolve(WorldRef { world_id: 0 }).is_none());
    assert!(reg.resolve(WorldRef { world_id: 99 }).is_none());
    assert!(reg.can_create_world());
}
