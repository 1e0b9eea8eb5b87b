//! Components and the cells that hold them.
use vstd::prelude::*;

verus! {

/// What every component type offers: a stable, human-readable name of its
/// type, by which an entity's cells are told apart.
pub trait ComponentBaseTrait {
    /// The name of the component's type. Each verified impl states it, as
    /// `Health` does. The default body only lets impls in plain Rust, which
    /// cannot write a spec function and leave it out, still compile; such an
    /// impl is not held to the contract below.
    closed spec fn component_type_name(&self) -> Seq<char> {
        arbitrary()
    }

    fn get_component_type_name(&self) -> (r: String)
        ensures
            r@ == self.component_type_name(),
    ;
}

/// One cell of an entity: it wraps a single component, and its type is the
/// type the component itself reports.
pub struct ComponentWrapper<T> {
    inner: T,
}

impl<T> View for ComponentWrapper<T> {
    /// The wrapped component.
    type V = T;

    closed spec fn view(&self) -> T {
        self.inner
    }
}

impl<T> ComponentWrapper<T> {
    /// Wraps `component`.
    pub fn new(component: T) -> (r: Self)
        ensures
            r@ == component,
    {
        ComponentWrapper { inner: component }
    }

    /// Shared access to the component.
    pub fn borrow(&self) -> (r: &T)
        ensures
            *r == self@,
    {
        &self.inner
    }

    /// Exclusive access to the component.
    pub fn borrow_mut(&mut self) -> (r: &mut T)
        ensures
            *r == old(self)@,
            final(self)@ == *final(r),
    {
        &mut self.inner
    }
}

impl<T: ComponentBaseTrait> ComponentWrapper<T> {
    /// The name of the wrapped component's type, asked of the component.
    pub fn get_component_type_name(&self) -> (r: String)
        ensures
            r@ == self@.component_type_name(),
    {
        self.inner.get_component_type_name()
    }
}

/// A component that holds hit points.
#[derive(Clone, Copy, Debug, PartialEq, Eq, Structural)]
pub struct Health {
    pub hp: i32,
}

impl ComponentBaseTrait for Health {
    open spec fn component_type_name(&self) -> Seq<char> {
        seq!['H', 'e', 'a', 'l', 't', 'h']
    }

    fn get_component_type_name(&self) -> (r: String) {
        let r = String::from_str("Health");
        proof {
            reveal_strlit("Health");
            assert(r@ =~= seq!['H', 'e', 'a', 'l', 't', 'h']);
        }
        r
    }
}

} // verus!
