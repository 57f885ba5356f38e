//! A module that always shows the same.
use vstd::prelude::*;
use crate::modules::prelude::ModuleAct;
use crate::tui::Elem;

verus! {

#[derive(Debug)]
pub struct FixedTuiModule {}

impl FixedTuiModule {
    /// What the module asks for, at the start and whenever it is asked again.
    pub fn render(&self, item: &Elem) -> (r: ModuleAct)
        ensures
            r == ModuleAct::RenderAll(*item),
    {
        ModuleAct::RenderAll(item.clone())
    }
}

} // verus!
