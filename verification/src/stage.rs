//! System execution stages and their order within a frame.
use vstd::prelude::*;

verus! {

/// Execution stages, run in this order every frame. `FixedUpdate` runs zero or
/// more times per frame (driven by the fixed-timestep accumulator); every
/// other stage runs exactly once.
#[derive(Clone, Copy, PartialEq, Eq, Hash, Debug, Structural)]
pub enum Stage {
    First,
    PreUpdate,
    FixedUpdate,
    Update,
    PostUpdate,
    Render,
}

impl Stage {
    pub const COUNT: usize = 6;

    /// Position of the stage in the frame, from 0 (`First`) to 5 (`Render`).
    pub open spec fn spec_index(self) -> usize {
        match self {
            Stage::First => 0,
            Stage::PreUpdate => 1,
            Stage::FixedUpdate => 2,
            Stage::Update => 3,
            Stage::PostUpdate => 4,
            Stage::Render => 5,
        }
    }

    /// Position of the stage in the frame, from 0 (`First`) to 5 (`Render`).
    pub fn index(self) -> (i: usize)
        ensures
            i == self.spec_index(),
            i < Stage::COUNT,
    {
        match self {
            Stage::First => 0,
            Stage::PreUpdate => 1,
            Stage::FixedUpdate => 2,
            Stage::Update => 3,
            Stage::PostUpdate => 4,
            Stage::Render => 5,
        }
    }

    /// Stages in execution order.
    pub fn order() -> (o: Vec<Stage>)
        ensures
            o@.len() == Stage::COUNT,
            forall|i: int| 0 <= i < o@.len() ==> (#[trigger] o@[i]).spec_index() == i,
            o@ == seq![
                Stage::First,
                Stage::PreUpdate,
                Stage::FixedUpdate,
                Stage::Update,
                Stage::PostUpdate,
                Stage::Render,
            ],
    {
        let mut o = Vec::new();
        o.push(Stage::First);
        o.push(Stage::PreUpdate);
        o.push(Stage::FixedUpdate);
        o.push(Stage::Update);
        o.push(Stage::PostUpdate);
        o.push(Stage::Render);
        o
    }

    /// Stages run in the order they are declared: `First`, `PreUpdate`,
    /// `FixedUpdate`, `Update`, `PostUpdate`, `Render`; in particular `Update`
    /// runs before `PostUpdate`, and `Render` last.
    pub proof fn lemma_declaration_order()
        ensures
            Stage::First.spec_index() < Stage::PreUpdate.spec_index(),
            Stage::PreUpdate.spec_index() < Stage::FixedUpdate.spec_index(),
            Stage::FixedUpdate.spec_index() < Stage::Update.spec_index(),
            Stage::Update.spec_index() < Stage::PostUpdate.spec_index(),
            Stage::PostUpdate.spec_index() < Stage::Render.spec_index(),
            Stage::First.spec_index() == 0,
            Stage::Render.spec_index() == Stage::COUNT - 1,
    {
    }

    /// Distinct stages have distinct positions.
    pub proof fn lemma_index_injective(a: Stage, b: Stage)
        ensures
            a.spec_index() == b.spec_index() ==> a == b,
    {
    }
}

} // verus!
