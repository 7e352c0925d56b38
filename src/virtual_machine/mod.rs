//! The running program: immutable sprites, the targets that run them, and the
//! scheduler that steps the targets' threads.
//!
//! A sprite is the program, like an executable; a target is a running
//! instance of it, like a process. Targets refer to their sprite by position,
//! so clones share one program. Loading a project replaces the whole machine
//! at once, under a new generation number.
use vstd::prelude::*;

use crate::json::Decimal;
use crate::sb4;
use crate::virtual_machine::runtime::Scheduler;

pub mod runtime;
pub mod spawn;

verus! {

/// The fixed program of one sprite.
#[derive(Debug)]
pub struct Sprite {
    pub name: String,
    pub scripts: Vec<sb4::TopLevelItem>,
    pub sounds: Vec<sb4::Sound>,
    pub costumes: Vec<sb4::Costume>,
}

/// The state of one running instance of a sprite.
#[derive(Debug)]
pub struct Target {
    pub x: Decimal,
    pub y: Decimal,
    /// Percentage: 100 means 100%.
    pub scale: Decimal,
    pub direction: Decimal,
    pub rotation_style: sb4::RotationStyle,
    pub is_draggable: bool,
    pub is_visible: bool,
    pub variables: Vec<(String, sb4::Variable)>,
    pub lists: Vec<(String, sb4::List)>,
    pub current_costume: usize,
    /// The position of this target's sprite in the machine.
    pub sprite: usize,
}

#[derive(Debug)]
pub struct VirtualMachine {
    /// Which load this machine came from.
    pub generation: u64,
    pub sprites: Vec<Sprite>,
    pub targets: Vec<Target>,
    pub scheduler: Scheduler,
}

/// The position of the last entry of `s` named `name`: the one a lookup by
/// name finds.
pub open spec fn last_named<V>(s: Seq<(String, V)>, name: Seq<char>) -> Option<int>
    decreases s.len(),
{
    if s.len() == 0 {
        None
    } else if s.last().0@ == name {
        Some(s.len() - 1)
    } else {
        last_named(s.drop_last(), name)
    }
}

impl Target {
    /// The variable `name` of this target: the last entry of that name.
    pub fn variable(&self, name: &String) -> (r: Option<&sb4::Variable>)
        ensures
            r is Some <==> last_named(self.variables@, name@) is Some,
            r matches Some(v) ==> *v == self.variables@[last_named(self.variables@, name@)->Some_0].1,
    {
        let mut i: usize = self.variables.len();
        assert(self.variables@.subrange(0, i as int) =~= self.variables@);
        while i > 0
            invariant
                0 <= i <= self.variables@.len(),
                last_named(self.variables@, name@) == last_named(self.variables@.subrange(0, i as int), name@),
            decreases i,
        {
            let ghost prefix = self.variables@.subrange(0, i as int);
            if self.variables[i - 1].0 == *name {
                return Some(&self.variables[i - 1].1);
            }
            assert(prefix.drop_last() =~= self.variables@.subrange(0, i - 1));
            i -= 1;
        }
        None
    }

    /// The list `name` of this target: the last entry of that name.
    pub fn list(&self, name: &String) -> (r: Option<&sb4::List>)
        ensures
            r is Some <==> last_named(self.lists@, name@) is Some,
            r matches Some(l) ==> *l == self.lists@[last_named(self.lists@, name@)->Some_0].1,
    {
        let mut i: usize = self.lists.len();
        assert(self.lists@.subrange(0, i as int) =~= self.lists@);
        while i > 0
            invariant
                0 <= i <= self.lists@.len(),
                last_named(self.lists@, name@) == last_named(self.lists@.subrange(0, i as int), name@),
            decreases i,
        {
            let ghost prefix = self.lists@.subrange(0, i as int);
            if self.lists[i - 1].0 == *name {
                return Some(&self.lists[i - 1].1);
            }
            assert(prefix.drop_last() =~= self.lists@.subrange(0, i - 1));
            i -= 1;
        }
        None
    }
}

impl VirtualMachine {
    /// Every target names a sprite of this machine, every thread a target and
    /// one of its sprite's scripts, and the scheduler is balanced.
    pub open spec fn wf(&self) -> bool {
        &&& forall|i: int| 0 <= i < self.targets.len() ==> (#[trigger] self.targets[i]).sprite < self.sprites.len()
        &&& self.scheduler.wf()
        &&& forall|i: int| 0 <= i < self.scheduler.threads().len() ==> {
            let t = #[trigger] self.scheduler.threads()[i];
            &&& t.target < self.targets.len()
            &&& t.script < self.sprites[self.targets[t.target as int].sprite as int].scripts.len()
        }
    }
}

} // verus!
