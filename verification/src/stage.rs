use vstd::prelude::*;

verus! {

/// The engine's per-frame stages, in the order they run.
#[derive(Clone, Copy, Debug, PartialEq, Eq, Structural)]
pub enum GlobalStageStep {
    PreRender,
    Render,
    PostRender,
    Gui,
}

pub open spec fn stage_name(s: GlobalStageStep) -> Seq<char> {
    match s {
        GlobalStageStep::PreRender => "PreRender"@,
        GlobalStageStep::Render => "Render"@,
        GlobalStageStep::PostRender => "PostRender"@,
        GlobalStageStep::Gui => "Gui"@,
    }
}

impl GlobalStageStep {
    /// The stage's label.
    pub fn as_str(&self) -> (r: &'static str)
        ensures
            r@ == stage_name(*self),
    {
        match self {
            GlobalStageStep::PreRender => "PreRender",
            GlobalStageStep::Render => "Render",
            GlobalStageStep::PostRender => "PostRender",
            GlobalStageStep::Gui => "Gui",
        }
    }
}

/// Distinct stages carry distinct labels.
pub proof fn law_stage_names_distinct(a: GlobalStageStep, b: GlobalStageStep)
    requires
        a != b,
    ensures
        stage_name(a) != stage_name(b),
{
    reveal_strlit("PreRender");
    reveal_strlit("Render");
    reveal_strlit("PostRender");
    reveal_strlit("Gui");
    assert("PreRender"@.len() == 9);
    assert("Render"@.len() == 6);
    assert("PostRender"@.len() == 10);
    assert("Gui"@.len() == 3);
}

} // verus!
