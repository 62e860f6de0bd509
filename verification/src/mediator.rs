//! The mediator pattern, with one-directional ownership: the mediator owns
//! its components and reacts to events by driving them; components keep a log
//! of the operations performed on them and hold at most an opaque mediator
//! id, never a reference back.

use vstd::prelude::*;

verus! {

/// The operations the components can perform.
#[derive(Clone, Copy, PartialEq, Eq, Structural)]
pub enum Operation {
    A,
    B,
    C,
    D,
}

/// The mathematical state of a component: the mediator it is attached to, if
/// any, and the operations performed so far, oldest first.
pub struct ComponentModel {
    pub mediator: Option<u64>,
    pub performed: Seq<Operation>,
}

/// The first collaborator: performs operations `A` and `B`.
pub struct Component1 {
    mediator: Option<u64>,
    performed: Vec<Operation>,
}

impl View for Component1 {
    type V = ComponentModel;

    closed spec fn view(&self) -> ComponentModel {
        ComponentModel { mediator: self.mediator, performed: self.performed@ }
    }
}

impl Component1 {
    pub fn new() -> (c: Component1)
        ensures
            c@ == (ComponentModel { mediator: None, performed: Seq::<Operation>::empty() }),
    {
        Component1 { mediator: None, performed: Vec::new() }
    }

    /// Attaches the component to the mediator with the given id.
    pub fn set_mediator(&mut self, mediator: u64)
        ensures
            final(self)@ == (ComponentModel { mediator: Some(mediator), ..old(self)@ }),
    {
        self.mediator = Some(mediator);
    }

    pub fn do_a(&mut self)
        ensures
            final(self)@ == (ComponentModel { performed: old(self)@.performed.push(Operation::A), ..old(self)@ }),
    {
        self.performed.push(Operation::A);
    }

    pub fn do_b(&mut self)
        ensures
            final(self)@ == (ComponentModel { performed: old(self)@.performed.push(Operation::B), ..old(self)@ }),
    {
        self.performed.push(Operation::B);
    }

    pub fn performed_count(&self) -> (n: usize)
        ensures
            n == self@.performed.len(),
    {
        self.performed.len()
    }

    pub fn performed_at(&self, i: usize) -> (op: Operation)
        requires
            i < self@.performed.len(),
        ensures
            op == self@.performed[i as int],
    {
        self.performed[i]
    }
}

/// The second collaborator: performs operations `C` and `D`.
pub struct Component2 {
    mediator: Option<u64>,
    performed: Vec<Operation>,
}

impl View for Component2 {
    type V = ComponentModel;

    closed spec fn view(&self) -> ComponentModel {
        ComponentModel { mediator: self.mediator, performed: self.performed@ }
    }
}

impl Component2 {
    pub fn new() -> (c: Component2)
        ensures
            c@ == (ComponentModel { mediator: None, performed: Seq::<Operation>::empty() }),
    {
        Component2 { mediator: None, performed: Vec::new() }
    }

    /// Attaches the component to the mediator with the given id.
    pub fn set_mediator(&mut self, mediator: u64)
        ensures
            final(self)@ == (ComponentModel { mediator: Some(mediator), ..old(self)@ }),
    {
        self.mediator = Some(mediator);
    }

    pub fn do_c(&mut self)
        ensures
            final(self)@ == (ComponentModel { performed: old(self)@.performed.push(Operation::C), ..old(self)@ }),
    {
        self.performed.push(Operation::C);
    }

    pub fn do_d(&mut self)
        ensures
            final(self)@ == (ComponentModel { performed: old(self)@.performed.push(Operation::D), ..old(self)@ }),
    {
        self.performed.push(Operation::D);
    }

    pub fn performed_count(&self) -> (n: usize)
        ensures
            n == self@.performed.len(),
    {
        self.performed.len()
    }

    pub fn performed_at(&self, i: usize) -> (op: Operation)
        requires
            i < self@.performed.len(),
        ensures
            op == self@.performed[i as int],
    {
        self.performed[i]
    }
}

/// The mediator: owns both components and encodes the reaction rules — on
/// `A` the second component does `C`; on `D` the first does `B` and the
/// second does `C`; other events trigger nothing.
pub struct ConcreteMediator {
    component1: Component1,
    component2: Component2,
}

impl View for ConcreteMediator {
    type V = (ComponentModel, ComponentModel);

    closed spec fn view(&self) -> (ComponentModel, ComponentModel) {
        (self.component1@, self.component2@)
    }
}

impl ConcreteMediator {
    pub fn new(component1: Component1, component2: Component2) -> (m: ConcreteMediator)
        ensures
            m@ == (component1@, component2@),
    {
        ConcreteMediator { component1, component2 }
    }

    /// Reacts to the event a component reported.
    pub fn notify(&mut self, event: Operation)
        ensures
            event == Operation::A ==> final(self)@ == (
                old(self)@.0,
                ComponentModel { performed: old(self)@.1.performed.push(Operation::C), ..old(self)@.1 },
            ),
            event == Operation::D ==> final(self)@ == (
                ComponentModel { performed: old(self)@.0.performed.push(Operation::B), ..old(self)@.0 },
                ComponentModel { performed: old(self)@.1.performed.push(Operation::C), ..old(self)@.1 },
            ),
            event == Operation::B || event == Operation::C ==> final(self)@ == old(self)@,
    {
        match event {
            Operation::A => {
                self.component2.do_c();
            },
            Operation::D => {
                self.component1.do_b();
                self.component2.do_c();
            },
            _ => {},
        }
    }

    pub fn component1(&self) -> (c: &Component1)
        ensures
            c@ == self@.0,
    {
        &self.component1
    }

    pub fn component2(&self) -> (c: &Component2)
        ensures
            c@ == self@.1,
    {
        &self.component2
    }
}

} // verus!
