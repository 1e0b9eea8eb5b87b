use ecs::component::{ComponentBaseTrait, ComponentWrapper, Health};
use ecs::entity::{AccessError, Entity};
use ecs::flags::{EntityFlags, ACTIVE_BIT};
use ecs::registry::WorldRegistry;
use ecs::world::{EntityHandle, World};

#[derive(Debug, Clone, PartialEq)]
struct Position {
    x: f32,
    y: f32,
}

#[derive(Debug, Clone, PartialEq)]
struct Velocity {
    dx: i64,
}

#[derive(Debug, Clone, PartialEq)]
enum Comp {
    Position(Position),
    Health(Health),
    Velocity(Velocity),
}

impl ComponentBaseTrait for Comp {
    fn get_component_type_name(&self) -> String {
        match self {
            Comp::Position(_) => "Position".to_string(),
            Comp::Health(_) => "Health".to_string(),
            Comp::Velocity(_) => "Velocity".to_string(),
        }
    }
}

fn pos(x: f32, y: f32) -> Comp {
    Comp::Position(Position { x, y })
}

fn hp(hp: i32) -> Comp {
    Comp::Health(Health { hp })
}

fn fresh_world<C: ComponentBaseTrait>(reg: &mut WorldRegistry<C>) -> &mut World<C> {
    let r = World::new(reg);
    reg.resolve_mut(r).expect("a new world resolves through its registry")
}

fn entity_mut(w: &mut World<Comp>, h: EntityHandle) -> &mut Entity<Comp> {
    w.entity_mut(h).expect("the world holds the entity")
}

#[test]
fn scenario_position_then_destroy() {
    let mut reg: WorldRegistry<Comp> = WorldRegistry::new();
    let w = fresh_world(&mut reg);
    let e = w.new_entity();
    entity_mut(w, e).add_component(pos(44.0, 21.0));
    assert_eq!(w.entity(e).unwrap().component_count(), 1);
    assert_eq!(
        w.entity(e).unwrap().get_component("Position"),
        Some(&pos(44.0, 21.0))
    );
    assert!(w.destroy_entity(e));
    assert_eq!(w.entities().len(), 0);
}

#[test]
fn new_entity_is_active_and_empty() {
    let mut reg: WorldRegistry<Comp> = WorldRegistry::new();
    let w = fresh_world(&mut reg);
    let e = w.new_entity();
    let ent = w.entity(e).unwrap();
    assert!(ent.is_active());
    assert_eq!(ent.flags().bits(), ACTIVE_BIT);
    assert_eq!(ent.flags().names(), "ACTIVE");
    assert_eq!(ent.component_count(), 0);
    assert_eq!(ent.name(), &None);
    assert_eq!(ent.id(), e.id);
    assert_eq!(ent.world_ref(), w.self_ref());
    assert_eq!(w.self_ref().world_id, 1);
    assert_eq!(w.entity_count(), 1);
}

#[test]
fn handles_are_distinct() {
    let mut reg: WorldRegistry<Comp> = WorldRegistry::new();
    let w = fresh_world(&mut reg);
    let a = w.new_entity();
    let b = w.new_entity();
    let c = w.new_entity();
    assert_ne!(a, b);
    assert_ne!(b, c);
    assert_ne!(a, c);
    assert_eq!(w.entity_count(), 3);
    assert!(w.can_create_entity());
}

#[test]
fn add_then_get_returns_value() {
    let mut reg: WorldRegistry<Comp> = WorldRegistry::new();
    let w = fresh_world(&mut reg);
    let e = w.new_entity();
    entity_mut(w, e).add_component(hp(100));
    entity_mut(w, e).add_component(pos(1.5, -2.0));
    let ent = w.entity(e).unwrap();
    assert_eq!(ent.get_component("Health"), Some(&hp(100)));
    assert_eq!(ent.get_component("Position"), Some(&pos(1.5, -2.0)));
}

#[test]
fn count_after_mixed_adds() {
    let mut reg: WorldRegistry<Comp> = WorldRegistry::new();
    let w = fresh_world(&mut reg);
    let e = w.new_entity();
    let ent = entity_mut(w, e);
    ent.add_component(hp(1));
    ent.add_component(pos(0.0, 0.0));
    ent.add_component(Comp::Velocity(Velocity { dx: 3 }));
    ent.add_component(hp(2));
    assert_eq!(ent.component_count(), 4);
}

#[test]
fn duplicates_first_inserted_wins() {
    let mut reg: WorldRegistry<Comp> = WorldRegistry::new();
    let w = fresh_world(&mut reg);
    let e = w.new_entity();
    let ent = entity_mut(w, e);
    ent.add_component(hp(10));
    ent.add_component(hp(20));
    assert_eq!(ent.get_component("Health"), Some(&hp(10)));
    assert_eq!(ent.find_component("Health"), Some(0));
    assert_eq!(ent.component_count(), 2);
}

#[test]
fn absent_type_is_none() {
    let mut reg: WorldRegistry<Comp> = WorldRegistry::new();
    let w = fresh_world(&mut reg);
    let e = w.new_entity();
    let ent = entity_mut(w, e);
    assert_eq!(ent.get_component("Health"), None);
    ent.add_component(pos(3.0, 4.0));
    assert_eq!(ent.get_component("Health"), None);
    assert_eq!(ent.get_component("Velocity"), None);
    assert!(ent.get_component_mut("Health").is_none());
    assert_eq!(ent.find_component("Health"), None);
}

#[test]
fn get_component_mut_changes_first_match_only() {
    let mut reg: WorldRegistry<Comp> = WorldRegistry::new();
    let w = fresh_world(&mut reg);
    let e = w.new_entity();
    let ent = entity_mut(w, e);
    ent.add_component(pos(44.0, 21.0));
    ent.add_component(hp(5));
    ent.add_component(pos(1.0, 1.0));
    if let Some(Comp::Position(p)) = ent.get_component_mut("Position") {
        p.x = 924983.0;
    } else {
        panic!("a position is attached");
    }
    assert_eq!(ent.get_component("Position"), Some(&pos(924983.0, 21.0)));
    assert_eq!(ent.get_component("Health"), Some(&hp(5)));
    assert_eq!(ent.component_count(), 3);
}

#[test]
fn destroy_removes_by_identity() {
    let mut reg: WorldRegistry<Comp> = WorldRegistry::new();
    let w = fresh_world(&mut reg);
    let e = w.new_entity();
    let e2 = w.new_entity();
    entity_mut(w, e).add_component(hp(9));
    entity_mut(w, e2).add_component(hp(9));
    assert!(w.destroy_entity(e));
    assert_eq!(w.entity_count(), 1);
    let rest = w.entity(e2).unwrap();
    assert_eq!(rest.id(), e2.id);
    assert_eq!(rest.component_count(), 1);
    assert_eq!(rest.get_component("Health"), Some(&hp(9)));
    assert!(rest.is_active());
    assert!(w.entity(e).is_none());
}

#[test]
fn destroy_shrinks_by_one_and_hides_entity() {
    let mut reg: WorldRegistry<Comp> = WorldRegistry::new();
    let w = fresh_world(&mut reg);
    let a = w.new_entity();
    let b = w.new_entity();
    let c = w.new_entity();
    assert!(w.destroy_entity(b));
    assert_eq!(w.entities().len(), 2);
    let ids: Vec<u64> = w.entities().iter().map(|e| e.id()).collect();
    assert_eq!(ids, vec![a.id, c.id]);
    assert_eq!(w.find_entity(b), None);
    assert_eq!(w.find_entity(c), Some(1));
}

#[test]
fn destroy_unknown_is_reported_and_harmless() {
    let mut reg: WorldRegistry<Comp> = WorldRegistry::new();
    let w = fresh_world(&mut reg);
    let a = w.new_entity();
    assert!(w.destroy_entity(a));
    assert!(!w.destroy_entity(a));
    assert!(!w.destroy_entity(EntityHandle { id: 42 }));
    let b = w.new_entity();
    assert_ne!(a, b);
    assert!(!w.destroy_entity(a));
    assert_eq!(w.entity_count(), 1);
}

#[test]
fn entity_name_can_be_set() {
    let mut reg: WorldRegistry<Comp> = WorldRegistry::new();
    let w = fresh_world(&mut reg);
    let e = w.new_entity();
    entity_mut(w, e).set_name(Some("player".to_string()));
    assert_eq!(w.entity(e).unwrap().name(), &Some("player".to_string()));
}

#[test]
fn flags_set_and_clear() {
    let mut f = EntityFlags::none();
    assert_eq!(f.bits(), 0);
    assert!(!f.is_active());
    assert_eq!(f.names(), "NONE");
    assert!(f.contains(EntityFlags::none()));
    f.insert(EntityFlags::active());
    assert!(f.is_active());
    assert!(f.contains(EntityFlags::active()));
    f.insert(EntityFlags { bits: 4 });
    assert_eq!(f.bits(), 5);
    f.remove(EntityFlags::active());
    assert!(!f.is_active());
    assert_eq!(f.bits(), 4);
}

#[test]
fn wrapper_records_type_and_gives_access() {
    let mut cell = ComponentWrapper::new(hp(3));
    assert_eq!(cell.get_component_type_name(), "Health");
    assert_eq!(cell.borrow(), &hp(3));
    *cell.borrow_mut() = hp(8);
    assert_eq!(cell.borrow(), &hp(8));
    assert_eq!(cell.get_component_type_name(), "Health");
    *cell.borrow_mut() = pos(1.0, 2.0);
    assert_eq!(cell.get_component_type_name(), "Position");
}

#[test]
fn health_names_its_type() {
    let h = Health { hp: -4 };
    assert_eq!(h.get_component_type_name(), "Health");
    let mut reg: WorldRegistry<Health> = WorldRegistry::new();
    let w = fresh_world(&mut reg);
    let e = w.new_entity();
    entity_mut_health(w, e).add_component(h);
    assert_eq!(w.entity(e).unwrap().get_component("Health"), Some(&Health { hp: -4 }));
}

fn entity_mut_health(w: &mut World<Health>, h: EntityHandle) -> &mut Entity<Health> {
    w.entity_mut(h).expect("the world holds the entity")
}

#[test]
fn two_components_mutated_together() {
    let mut reg: WorldRegistry<Comp> = WorldRegistry::new();
    let w = fresh_world(&mut reg);
    let e = w.new_entity();
    let ent = entity_mut(w, e);
    ent.add_component(pos(1.0, 2.0));
    ent.add_component(hp(50));
    match ent.get_components_mut("Health", "Position") {
        Ok((Comp::Health(h), Comp::Position(p))) => {
            h.hp -= 10;
            p.y = 7.5;
        }
        _ => panic!("both components are attached"),
    }
    assert_eq!(ent.get_component("Health"), Some(&hp(40)));
    assert_eq!(ent.get_component("Position"), Some(&pos(1.0, 7.5)));
    assert_eq!(ent.component_count(), 2);
}

#[test]
fn same_cell_twice_is_a_borrow_conflict() {
    let mut reg: WorldRegistry<Comp> = WorldRegistry::new();
    let w = fresh_world(&mut reg);
    let e = w.new_entity();
    let ent = entity_mut(w, e);
    ent.add_component(hp(1));
    ent.add_component(hp(2));
    assert_eq!(
        ent.get_components_mut("Health", "Health").err(),
        Some(AccessError::BorrowConflict)
    );
    assert_eq!(
        ent.get_components_mut("Health", "Position").err(),
        Some(AccessError::Missing)
    );
    assert_eq!(
        ent.get_components_mut("Velocity", "Health").err(),
        Some(AccessError::Missing)
    );
    assert_eq!(ent.get_component("Health"), Some(&hp(1)));
}

#[test]
fn lookup_follows_the_component_not_its_past() {
    let mut reg: WorldRegistry<Comp> = WorldRegistry::new();
    let w = fresh_world(&mut reg);
    let e = w.new_entity();
    let ent = entity_mut(w, e);
    ent.add_component(hp(5));
    ent.add_component(pos(0.5, 0.25));
    if let Some(c) = ent.get_component_mut("Health") {
        *c = pos(9.0, 9.0);
    }
    assert_eq!(ent.get_component("Health"), None);
    assert_eq!(ent.get_component("Position"), Some(&pos(9.0, 9.0)));
    assert_eq!(ent.find_component("Position"), Some(0));
    assert_eq!(ent.component_count(), 2);
}
