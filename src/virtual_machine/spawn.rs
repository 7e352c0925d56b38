//! Installing a canonical program as a running machine.
use vstd::prelude::*;

use crate::sb4;
use crate::virtual_machine::runtime::{Scheduler, WORK_BUDGET_NANOS};
use crate::virtual_machine::{Sprite, Target, VirtualMachine};

verus! {

/// `s` and `t` are the program and the first target made from `a`, which is
/// the sprite at position `i`.
pub open spec fn spawned(a: sb4::Sprite, s: Sprite, t: Target, i: int) -> bool {
    &&& s.name == a.name
    &&& s.scripts == a.scripts
    &&& s.sounds == a.sounds
    &&& s.costumes == a.costumes
    &&& t.x == a.x
    &&& t.y == a.y
    &&& t.scale == a.scale
    &&& t.direction == a.direction
    &&& t.rotation_style == a.rotation_style
    &&& t.is_draggable == a.is_draggable
    &&& t.is_visible == a.is_visible
    &&& t.variables == a.variables
    &&& t.lists == a.lists
    &&& t.current_costume == a.current_costume
    &&& t.sprite == i
}

impl VirtualMachine {
    /// Builds the machine for `project`: one program and one target per
    /// sprite, in order, and no thread yet.
    pub fn spawn_from(project: sb4::Project, generation: u64) -> (r: VirtualMachine)
        ensures
            r.wf(),
            r.generation == generation,
            r.sprites@.len() == project.sprites@.len(),
            r.targets@.len() == project.sprites@.len(),
            forall|i: int| 0 <= i < project.sprites@.len() ==> spawned(#[trigger] project.sprites@[i], r.sprites@[i], r.targets@[i], i),
            r.scheduler.threads().len() == 0,
            r.scheduler.budget() == WORK_BUDGET_NANOS,
    {
        let ghost all = project.sprites@;
        let mut rest = project.sprites;
        let mut sprites: Vec<Sprite> = Vec::new();
        let mut targets: Vec<Target> = Vec::new();
        let mut i: usize = 0;
        let n = rest.len();
        while rest.len() > 0
            invariant
                n == all.len(),
                i + rest@.len() == all.len(),
                rest@ == all.subrange(i as int, all.len() as int),
                sprites@.len() == i,
                targets@.len() == i,
                forall|t: int| 0 <= t < i ==> spawned(#[trigger] all[t], sprites@[t], targets@[t], t),
            decreases rest@.len(),
        {
            let a = rest.remove(0);
            assert(a == all[i as int]);
            let sb4::Sprite {
                name,
                scripts,
                sounds,
                costumes,
                x,
                y,
                scale,
                direction,
                rotation_style,
                is_draggable,
                is_visible,
                variables,
                lists,
                current_costume,
            } = a;
            sprites.push(Sprite { name, scripts, sounds, costumes });
            targets.push(Target {
                x,
                y,
                scale,
                direction,
                rotation_style,
                is_draggable,
                is_visible,
                variables,
                lists,
                current_costume,
                sprite: i,
            });
            assert(rest@ =~= all.subrange(i + 1, all.len() as int));
            i += 1;
        }
        let r = VirtualMachine { generation, sprites, targets, scheduler: Scheduler::new(WORK_BUDGET_NANOS) };
        assert forall|t: int| 0 <= t < r.targets.len() implies (#[trigger] r.targets[t]).sprite < r.sprites.len() by {
            assert(spawned(all[t], r.sprites@[t], r.targets@[t], t));
        }
        r
    }

    /// Replaces the whole machine by the one for `project`, under the next
    /// generation number; nothing of the old machine is kept.
    pub fn install(&mut self, project: sb4::Project)
        ensures
            final(self).wf(),
            final(self).generation == (if old(self).generation == u64::MAX { 0 } else { old(self).generation + 1 }),
            final(self).sprites@.len() == project.sprites@.len(),
            final(self).targets@.len() == project.sprites@.len(),
            forall|i: int| 0 <= i < project.sprites@.len() ==> spawned(
                #[trigger] project.sprites@[i],
                final(self).sprites@[i],
                final(self).targets@[i],
                i,
            ),
            final(self).scheduler.threads().len() == 0,
    {
        let generation = if self.generation == u64::MAX {
            0
        } else {
            self.generation + 1
        };
        *self = VirtualMachine::spawn_from(project, generation);
    }
}

} // verus!
