//! The static topology's node type: a star system with its identity, display
//! name, security value, class tag and permanently linked neighbours.
//!
//! Equality on systems is by id alone; the name is used only for display
//! ordering in the presentation layer, never for graph logic.

use vstd::prelude::*;

verus! {

#[derive(Debug, Clone, Copy, PartialEq, Eq, Structural)]
pub enum SystemClass {
    C1,
    C2,
    C3,
    C4,
    C5,
    C6,
    Highsec,
    Lowsec,
    Nullsec,
    Thera,
    C13,
    DrifterSentinel,
    DrifterBarbican,
    DrifterVidette,
    DrifterConflux,
    DrifterRedoubt,
    Pochven,
    Zarzakh,
}

/// The numeric code under which the static data serializes each class.
pub open spec fn class_code_spec(c: SystemClass) -> u8 {
    match c {
        SystemClass::C1 => 1,
        SystemClass::C2 => 2,
        SystemClass::C3 => 3,
        SystemClass::C4 => 4,
        SystemClass::C5 => 5,
        SystemClass::C6 => 6,
        SystemClass::Highsec => 7,
        SystemClass::Lowsec => 8,
        SystemClass::Nullsec => 9,
        SystemClass::Thera => 12,
        SystemClass::C13 => 13,
        SystemClass::DrifterSentinel => 14,
        SystemClass::DrifterBarbican => 15,
        SystemClass::DrifterVidette => 16,
        SystemClass::DrifterConflux => 17,
        SystemClass::DrifterRedoubt => 18,
        SystemClass::Pochven => 25,
        SystemClass::Zarzakh => 50,
    }
}

pub fn class_code(c: SystemClass) -> (r: u8)
    ensures
        r == class_code_spec(c),
{
    match c {
        SystemClass::C1 => 1,
        SystemClass::C2 => 2,
        SystemClass::C3 => 3,
        SystemClass::C4 => 4,
        SystemClass::C5 => 5,
        SystemClass::C6 => 6,
        SystemClass::Highsec => 7,
        SystemClass::Lowsec => 8,
        SystemClass::Nullsec => 9,
        SystemClass::Thera => 12,
        SystemClass::C13 => 13,
        SystemClass::DrifterSentinel => 14,
        SystemClass::DrifterBarbican => 15,
        SystemClass::DrifterVidette => 16,
        SystemClass::DrifterConflux => 17,
        SystemClass::DrifterRedoubt => 18,
        SystemClass::Pochven => 25,
        SystemClass::Zarzakh => 50,
    }
}

pub fn class_from_code(code: u8) -> (r: Option<SystemClass>)
    ensures
        match r {
            Some(c) => class_code_spec(c) == code,
            None => forall|c: SystemClass| class_code_spec(c) != code,
        },
{
    match code {
        1 => Some(SystemClass::C1),
        2 => Some(SystemClass::C2),
        3 => Some(SystemClass::C3),
        4 => Some(SystemClass::C4),
        5 => Some(SystemClass::C5),
        6 => Some(SystemClass::C6),
        7 => Some(SystemClass::Highsec),
        8 => Some(SystemClass::Lowsec),
        9 => Some(SystemClass::Nullsec),
        12 => Some(SystemClass::Thera),
        13 => Some(SystemClass::C13),
        14 => Some(SystemClass::DrifterSentinel),
        15 => Some(SystemClass::DrifterBarbican),
        16 => Some(SystemClass::DrifterVidette),
        17 => Some(SystemClass::DrifterConflux),
        18 => Some(SystemClass::DrifterRedoubt),
        25 => Some(SystemClass::Pochven),
        50 => Some(SystemClass::Zarzakh),
        _ => None,
    }
}

/// A node of the travel graph. `neighbours` lists each permanent connection
/// once, from one side only; the graph builder materializes both directions.
#[derive(Debug, Clone)]
pub struct System {
    pub id: u32,
    pub name: String,
    pub security: i8,
    pub class: SystemClass,
    pub neighbours: Vec<u32>,
}

/// The mathematical value of a system.
pub struct SystemView {
    pub id: u32,
    pub name: Seq<char>,
    pub security: i8,
    pub class: SystemClass,
    pub neighbours: Seq<u32>,
}

impl DeepView for System {
    type V = SystemView;

    open spec fn deep_view(&self) -> SystemView {
        SystemView {
            id: self.id,
            name: self.name@,
            security: self.security,
            class: self.class,
            neighbours: self.neighbours@,
        }
    }
}

impl PartialEq for System {
    fn eq(&self, other: &System) -> (r: bool)
        ensures
            r == (self.id == other.id),
    {
        self.id == other.id
    }
}

impl vstd::std_specs::cmp::PartialEqSpecImpl for System {
    open spec fn obeys_eq_spec() -> bool {
        true
    }

    open spec fn eq_spec(&self, other: &System) -> bool {
        self.id == other.id
    }
}

impl Eq for System {

}

impl System {
    /// A copy with the same mathematical value.
    pub fn duplicate(&self) -> (r: System)
        ensures
            r.deep_view() == self.deep_view(),
    {
        let n = self.neighbours.len();
        let mut neighbours: Vec<u32> = Vec::new();
        let mut k: usize = 0;
        while k < n
            invariant
                0 <= k <= n,
                n == self.neighbours.len(),
                neighbours@ == self.neighbours@.take(k as int),
            decreases n - k,
        {
            neighbours.push(self.neighbours[k]);
            proof {
                assert(neighbours@ =~= self.neighbours@.take(k + 1));
            }
            k = k + 1;
        }
        proof {
            assert(self.neighbours@.take(n as int) =~= self.neighbours@);
        }
        System {
            id: self.id,
            name: self.name.clone(),
            security: self.security,
            class: self.class,
            neighbours,
        }
    }
}

} // verus!
