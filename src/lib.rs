//! An entity-component store: entities own ordered, heterogeneous component
//! cells that are looked up by their type name, and a world owns the entities,
//! hands out identity handles for them and removes them by identity. A
//! registry gives worlds identifiers of their own, so that an entity's
//! reference to its world resolves to it while it exists. Beside this, the
//! decisions a render loop makes about its presentation surface.
pub mod component;
pub mod entity;
pub mod flags;
pub mod registry;
pub mod surface;
pub mod world;
