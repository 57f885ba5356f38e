//! A bar that is put together from modules.
use vstd::prelude::*;
use crate::assoc::Assoc;
use crate::modules::prelude::{ModuleAct, ModuleInteractPayload, ModuleUpd};
use crate::procs::menu_panel::InteractGeneric;
use crate::strs::{lemma_take_more, texts};
use crate::tui::{
    auto_view, fill_view, item_views, length_view, push_item, stack_view, Axis, CustomId, Elem,
    ElemView, InteractKind, ItemView, Location, Size, Sizes, StackItem,
};

verus! {

/// What a module shows: the same on all monitors, something on each, or nothing.
#[derive(Debug)]
pub enum BarTuiElem {
    Shared(Elem),
    ByMonitor(Assoc<Elem>),
    Hide,
}

impl BarTuiElem {
    pub open spec fn wf(self) -> bool {
        self matches BarTuiElem::ByMonitor(elems) ==> elems.wf()
    }

    /// What the module shows on a monitor, if anything.
    pub open spec fn on(self, monitor: Seq<char>) -> Seq<ItemView> {
        match self {
            BarTuiElem::Shared(elem) => seq![auto_view(elem@)],
            BarTuiElem::ByMonitor(elems) => if elems@.dom().contains(monitor) {
                seq![auto_view(elems@[monitor]@)]
            } else {
                Seq::empty()
            },
            BarTuiElem::Hide => Seq::empty(),
        }
    }

    /// Another one that shows the same.
    fn copy(&self) -> (r: Self)
        ensures
            same_shown(r, *self),
            self.wf() ==> r.wf(),
    {
        match self {
            BarTuiElem::Shared(elem) => BarTuiElem::Shared(elem.clone()),
            BarTuiElem::ByMonitor(elems) => {
                let mut entries: Vec<(String, Elem)> = Vec::new();
                let mut i: usize = 0;
                while i < elems.entries.len()
                    invariant
                        0 <= i <= elems.entries@.len(),
                        entries@ == elems.entries@.take(i as int),
                    decreases elems.entries@.len() - i,
                {
                    entries.push((elems.entries[i].0.clone(), elems.entries[i].1.clone()));
                    proof {
                        assert(elems.entries@.take(i + 1) =~= elems.entries@.take(i as int).push(
                            elems.entries@[i as int],
                        ));
                    }
                    i += 1;
                }
                proof {
                    assert(elems.entries@.take(i as int) =~= elems.entries@);
                }
                BarTuiElem::ByMonitor(Assoc { entries })
            },
            BarTuiElem::Hide => BarTuiElem::Hide,
        }
    }
}

/// Whether two show the same on every monitor.
pub open spec fn same_shown(a: BarTuiElem, b: BarTuiElem) -> bool {
    forall|monitor: Seq<char>| #[trigger] a.on(monitor) == b.on(monitor)
}

/// The modules on the left and on the right of a bar.
#[derive(Debug)]
pub struct BarTui {
    pub left: Vec<BarTuiElem>,
    pub right: Vec<BarTuiElem>,
}

/// What modules show on a monitor, one after the other.
pub open spec fn parts_on(elems: Seq<BarTuiElem>, monitor: Seq<char>) -> Seq<ItemView>
    decreases elems.len(),
{
    if elems.len() == 0 {
        Seq::empty()
    } else {
        parts_on(elems.drop_last(), monitor) + elems.last().on(monitor)
    }
}

impl BarTui {
    pub open spec fn wf(&self) -> bool {
        &&& forall|i: int| 0 <= i < self.left@.len() ==> (#[trigger] self.left@[i]).wf()
        &&& forall|i: int| 0 <= i < self.right@.len() ==> (#[trigger] self.right@[i]).wf()
    }

    /// The bar of a monitor.
    pub open spec fn shown(self, monitor: Seq<char>) -> ElemView {
        stack_view(
            Axis::X,
            seq![length_view(1, ElemView::Empty)] + parts_on(self.left@, monitor) + seq![
                fill_view(1, ElemView::Empty),
            ] + parts_on(self.right@, monitor) + seq![length_view(1, ElemView::Empty)],
        )
    }

    pub fn to_tui(&self, monitor: &String) -> (r: Elem)
        requires
            self.wf(),
        ensures
            r@ == self.shown(monitor@),
    {
        let mut parts: Vec<StackItem> = Vec::new();
        push_item(&mut parts, StackItem::spacing(1));
        push_parts(&mut parts, &self.left, monitor);
        push_item(&mut parts, StackItem::fill(1, Elem::empty()));
        push_parts(&mut parts, &self.right, monitor);
        push_item(&mut parts, StackItem::spacing(1));
        proof {
            assert(item_views(parts@) =~= self.shown(monitor@)->Stack_items);
        }
        Elem::stack(Axis::X, parts)
    }
}

fn push_parts(parts: &mut Vec<StackItem>, elems: &Vec<BarTuiElem>, monitor: &String)
    requires
        forall|i: int| 0 <= i < elems@.len() ==> (#[trigger] elems@[i]).wf(),
    ensures
        item_views(final(parts)@) == item_views(old(parts)@) + parts_on(elems@, monitor@),
{
    let ghost before = item_views(parts@);
    let mut i: usize = 0;
    proof {
        assert(elems@.take(0) =~= Seq::empty());
        assert(before + parts_on(elems@.take(0), monitor@) =~= before);
    }
    while i < elems.len()
        invariant
            0 <= i <= elems@.len(),
            forall|i: int| 0 <= i < elems@.len() ==> (#[trigger] elems@[i]).wf(),
            item_views(parts@) == before + parts_on(elems@.take(i as int), monitor@),
        decreases elems@.len() - i,
    {
        proof {
            assert(elems@.take(i + 1).drop_last() =~= elems@.take(i as int));
            assert(elems@.take(i + 1).last() == elems@[i as int]);
        }
        match &elems[i] {
            BarTuiElem::Shared(elem) => {
                push_item(parts, StackItem::auto(elem.clone()));
            },
            BarTuiElem::ByMonitor(own) => {
                if let Some(elem) = own.get(monitor) {
                    push_item(parts, StackItem::auto(elem.clone()));
                }
            },
            BarTuiElem::Hide => {},
        }
        proof {
            assert(item_views(parts@) =~= before + parts_on(elems@.take(i + 1), monitor@));
        }
        i += 1;
    }
    proof {
        assert(elems@.take(i as int) =~= elems@);
    }
}

/// The modules that are loaded, with what they show, and their places in the bar.
#[derive(Debug)]
pub struct BarModules {
    pub modules: Assoc<BarTuiElem>,
    pub left: Vec<String>,
    pub right: Vec<String>,
}

/// What the modules with these names show. Names of modules that are not loaded
/// are passed over.
pub open spec fn picked(modules: Map<Seq<char>, BarTuiElem>, ids: Seq<Seq<char>>) -> Seq<BarTuiElem>
    decreases ids.len(),
{
    if ids.len() == 0 {
        Seq::empty()
    } else {
        let before = picked(modules, ids.drop_last());
        if modules.dom().contains(ids.last()) {
            before.push(modules[ids.last()])
        } else {
            before
        }
    }
}

/// Whether two lists show the same, place by place, on every monitor.
pub open spec fn same_parts(a: Seq<BarTuiElem>, b: Seq<BarTuiElem>) -> bool {
    &&& a.len() == b.len()
    &&& forall|i: int| 0 <= i < a.len() ==> same_shown(#[trigger] a[i], b[i])
}

/// What is done about a request of a module.
#[derive(Debug)]
pub enum ActOutcome {
    /// The request came from a module that is not loaded.
    UnknownModule,
    /// The bars are to show this.
    Render(BarTui),
    Nothing,
}

/// What a module shows after its request.
pub open spec fn after_act(tui: BarTuiElem, act: ModuleAct) -> BarTuiElem {
    match act {
        ModuleAct::RenderByMonitor(elems) => BarTuiElem::ByMonitor(elems),
        ModuleAct::RenderAll(elem) => BarTuiElem::Shared(elem),
        ModuleAct::HideModule => BarTuiElem::Hide,
        ModuleAct::OpenMenu(_) => tui,
    }
}

/// What modules show before they have asked for anything.
pub open spec fn is_blank(tui: BarTuiElem) -> bool {
    tui matches BarTuiElem::Shared(elem) && elem@ == ElemView::Empty
}

impl BarModules {
    pub open spec fn wf(&self) -> bool {
        &&& self.modules.wf()
        &&& forall|id: Seq<char>| #[trigger]
            self.modules@.dom().contains(id) ==> self.modules@[id].wf()
    }

    pub fn new() -> (r: Self)
        ensures
            r.wf(),
            r.modules@ == Map::<Seq<char>, BarTuiElem>::empty(),
            r.left@.len() == 0,
            r.right@.len() == 0,
    {
        BarModules { modules: Assoc::new(), left: Vec::new(), right: Vec::new() }
    }

    fn pick(&self, ids: &Vec<String>) -> (r: Vec<BarTuiElem>)
        requires
            self.wf(),
        ensures
            same_parts(r@, picked(self.modules@, texts(ids@))),
            forall|i: int| 0 <= i < r@.len() ==> (#[trigger] r@[i]).wf(),
    {
        let mut r: Vec<BarTuiElem> = Vec::new();
        let mut i: usize = 0;
        let ghost names = texts(ids@);
        proof {
            assert(names.take(0) =~= Seq::empty());
        }
        while i < ids.len()
            invariant
                0 <= i <= ids@.len(),
                names == texts(ids@),
                self.wf(),
                same_parts(r@, picked(self.modules@, names.take(i as int))),
                forall|i: int| 0 <= i < r@.len() ==> (#[trigger] r@[i]).wf(),
            decreases ids@.len() - i,
        {
            proof {
                assert(names.take(i + 1).drop_last() =~= names.take(i as int));
                assert(names.take(i + 1).last() == ids@[i as int]@);
            }
            if let Some(tui) = self.modules.get(&ids[i]) {
                r.push(tui.copy());
            }
            i += 1;
        }
        proof {
            assert(names.take(i as int) =~= names);
        }
        r
    }

    /// Does what a module asks for. The bars are put together anew when a module
    /// has something to show.
    pub fn handle_act(&mut self, id: &String, act: ModuleAct) -> (r: ActOutcome)
        requires
            old(self).wf(),
            act matches ModuleAct::RenderByMonitor(elems) ==> elems.wf(),
        ensures
            final(self).wf(),
            final(self).left == old(self).left,
            final(self).right == old(self).right,
            !old(self).modules@.dom().contains(id@) ==> r is UnknownModule && *final(self) == *old(
                self,
            ),
            old(self).modules@.dom().contains(id@) ==> {
                &&& final(self).modules@ == old(self).modules@.insert(
                    id@,
                    after_act(old(self).modules@[id@], act),
                )
                &&& (act is RenderByMonitor || act is RenderAll) ==> (r matches ActOutcome::Render(tui)
                    && tui.wf() && same_parts(
                    tui.left@,
                    picked(final(self).modules@, texts(old(self).left@)),
                ) && same_parts(
                    tui.right@,
                    picked(final(self).modules@, texts(old(self).right@)),
                ))
                &&& (act is HideModule || act is OpenMenu) ==> r is Nothing
            },
    {
        if !self.modules.contains(id) {
            return ActOutcome::UnknownModule;
        }
        let ghost before = self.modules@;
        match act {
            ModuleAct::RenderByMonitor(elems) => {
                self.modules.insert(id.clone(), BarTuiElem::ByMonitor(elems));
            },
            ModuleAct::RenderAll(elem) => {
                self.modules.insert(id.clone(), BarTuiElem::Shared(elem));
            },
            ModuleAct::HideModule => {
                self.modules.insert(id.clone(), BarTuiElem::Hide);
                return ActOutcome::Nothing;
            },
            ModuleAct::OpenMenu(_) => {
                proof {
                    assert(before.insert(id@, before[id@]) =~= before);
                }
                return ActOutcome::Nothing;
            },
        }
        ActOutcome::Render(BarTui { left: self.pick(&self.left), right: self.pick(&self.right) })
    }

    /// Replaces the modules. Those in `started` are loaded afterwards; one that
    /// was loaded before goes on to show what it showed.
    pub fn load(&mut self, started: Vec<String>, left: Vec<String>, right: Vec<String>)
        requires
            old(self).wf(),
        ensures
            final(self).wf(),
            final(self).left == left,
            final(self).right == right,
            forall|id: Seq<char>| #[trigger]
                final(self).modules@.dom().contains(id) <==> texts(started@).contains(id),
            forall|id: Seq<char>|
                #![trigger final(self).modules@[id]]
                texts(started@).contains(id) ==> if old(self).modules@.dom().contains(id) {
                    final(self).modules@[id] == old(self).modules@[id]
                } else {
                    is_blank(final(self).modules@[id])
                },
    {
        let ghost before = self.modules@;
        self.left = left;
        self.right = right;
        let mut old_modules: Assoc<BarTuiElem> = Assoc::new();
        std::mem::swap(&mut old_modules, &mut self.modules);
        let mut i: usize = 0;
        while i < started.len()
            invariant
                0 <= i <= started@.len(),
                self.left == left,
                self.right == right,
                old_modules.wf(),
                self.wf(),
                forall|id: Seq<char>| #[trigger]
                    before.dom().contains(id) ==> before[id].wf(),
                forall|id: Seq<char>| #[trigger]
                    self.modules@.dom().contains(id) <==> texts(started@).take(i as int).contains(id),
                forall|id: Seq<char>| #[trigger]
                    old_modules@.dom().contains(id) <==> before.dom().contains(id)
                        && !self.modules@.dom().contains(id),
                forall|id: Seq<char>| #[trigger]
                    old_modules@.dom().contains(id) ==> old_modules@[id] == before[id],
                forall|id: Seq<char>|
                    #![trigger self.modules@[id]]
                    self.modules@.dom().contains(id) ==> if before.dom().contains(id) {
                        self.modules@[id] == before[id]
                    } else {
                        is_blank(self.modules@[id])
                    },
            decreases started@.len() - i,
        {
            let ghost had = self.modules@;
            let ghost names = texts(started@);
            let id = &started[i];
            proof {
                lemma_take_more(names, i as int);
                assert forall|k: Seq<char>| #[trigger] names.take(i + 1).contains(k) <==> names.take(
                    i as int,
                ).contains(k) || k == id@ by {
                    assert(names.take(i + 1).to_set().contains(k) == names.take(
                        i as int,
                    ).to_set().insert(id@).contains(k));
                }
            }
            if !self.modules.contains(id) {
                let tui = match old_modules.remove(id) {
                    Some(tui) => tui,
                    None => BarTuiElem::Shared(Elem::empty()),
                };
                self.modules.insert(id.clone(), tui);
            }
            i += 1;
        }
        proof {
            assert(texts(started@).take(i as int) =~= texts(started@));
        }
    }

    /// Unloads the modules that no longer listen.
    pub fn retain(&mut self, closed: &Vec<String>)
        requires
            old(self).wf(),
        ensures
            final(self).wf(),
            final(self).left == old(self).left,
            final(self).right == old(self).right,
            final(self).modules@ == old(self).modules@.remove_keys(texts(closed@).to_set()),
    {
        let ghost before = self.modules@;
        let ghost names = texts(closed@);
        let mut i: usize = 0;
        proof {
            assert(before.remove_keys(names.take(0).to_set()) =~= before);
        }
        while i < closed.len()
            invariant
                0 <= i <= closed@.len(),
                names == texts(closed@),
                self.left == old(self).left,
                self.right == old(self).right,
                self.wf(),
                self.modules@ == before.remove_keys(names.take(i as int).to_set()),
            decreases closed@.len() - i,
        {
            let _ = self.modules.remove(&closed[i]);
            proof {
                lemma_take_more(names, i as int);
                assert(self.modules@ =~= before.remove_keys(names.take(i + 1).to_set()));
            }
            i += 1;
        }
        proof {
            assert(names.take(i as int) =~= names);
        }
    }
}

/// Modules that are hidden take no room in the bar.
pub proof fn law_hidden_modules_take_no_room(elems: Seq<BarTuiElem>, monitor: Seq<char>)
    ensures
        parts_on(elems, monitor) == parts_on(
            elems.filter(|elem: BarTuiElem| elem !is Hide),
            monitor,
        ),
    decreases elems.len(),
{
    reveal(Seq::filter);
    let shown = |elem: BarTuiElem| elem !is Hide;
    if elems.len() > 0 {
        law_hidden_modules_take_no_room(elems.drop_last(), monitor);
        let front = elems.drop_last().filter(shown);
        assert(front.push(elems.last()).drop_last() =~= front);
        assert(parts_on(front, monitor) + Seq::<ItemView>::empty() =~= parts_on(front, monitor));
    }
}

/// What happens around the bar of a monitor.
#[derive(Debug)]
pub enum BarUpd {
    /// The modules show something else.
    BarTui(BarTui),
    /// The user did something, with an element or beside all of them.
    Interact { location: Location, kind: InteractKind, tag: Option<CustomId> },
    Sizes(Sizes),
    Other,
}

/// What is done in answer.
#[derive(Debug)]
pub enum BarMonitorAct {
    /// Draw this over that size.
    Render(Elem, Size),
    /// Tell the modules.
    Tell(ModuleUpd),
    /// Everything that is shown is to be looked at again.
    Reload,
    Nothing,
}

/// The bar of a monitor.
#[derive(Debug)]
pub struct BarMonitor {
    pub monitor: String,
    pub sizes: Sizes,
}

impl BarMonitor {
    /// The bar after an event.
    pub open spec fn after(self, upd: BarUpd) -> BarMonitor {
        BarMonitor {
            monitor: self.monitor,
            sizes: match upd {
                BarUpd::Sizes(sizes) => sizes,
                _ => self.sizes,
            },
        }
    }

    /// Whether something is the answer to an event.
    pub open spec fn answers(self, upd: BarUpd, act: BarMonitorAct) -> bool {
        match upd {
            BarUpd::BarTui(tui) => act matches BarMonitorAct::Render(elem, size) && elem@
                == tui.shown(self.monitor@) && size == self.sizes.cell_size,
            BarUpd::Interact { location, kind, tag: Some(tag) } => act == BarMonitorAct::Tell(
                ModuleUpd::Interact(
                    InteractGeneric {
                        location,
                        kind,
                        target: ModuleInteractPayload { tag, monitor: self.monitor },
                    },
                ),
            ),
            BarUpd::Interact { tag: None, .. } => act is Nothing,
            BarUpd::Sizes(_) => act is Reload,
            BarUpd::Other => act is Nothing,
        }
    }

    /// Takes in one event.
    pub fn step(&mut self, upd: BarUpd) -> (r: BarMonitorAct)
        requires
            upd matches BarUpd::BarTui(tui) ==> tui.wf(),
        ensures
            *final(self) == old(self).after(upd),
            old(self).answers(upd, r),
    {
        match upd {
            BarUpd::BarTui(tui) => BarMonitorAct::Render(
                tui.to_tui(&self.monitor),
                self.sizes.cell_size,
            ),
            BarUpd::Interact { location, kind, tag } => match tag {
                Some(tag) => BarMonitorAct::Tell(
                    ModuleUpd::Interact(
                        InteractGeneric {
                            location,
                            kind,
                            target: ModuleInteractPayload { tag, monitor: self.monitor.clone() },
                        },
                    ),
                ),
                None => BarMonitorAct::Nothing,
            },
            BarUpd::Sizes(sizes) => {
                self.sizes = sizes;
                BarMonitorAct::Reload
            },
            BarUpd::Other => BarMonitorAct::Nothing,
        }
    }
}

/// What the modules show is drawn as this monitor sees it, over its last size. What
/// the user does with an element is told to the modules: where, what, with which
/// element and on which monitor. New sizes are kept, and have everything looked at
/// again; what is done beside all elements has no consequence.
pub proof fn law_bar_answers(
    bar: BarMonitor,
    act: BarMonitorAct,
    tui: BarTui,
    location: Location,
    kind: InteractKind,
    tag: CustomId,
    sizes: Sizes,
)
    ensures
        bar.answers(BarUpd::BarTui(tui), act) ==> (act matches BarMonitorAct::Render(elem, size)
            && elem@ == tui.shown(bar.monitor@) && size == bar.sizes.cell_size),
        bar.answers(BarUpd::Interact { location, kind, tag: Some(tag) }, act) ==> (
        act matches BarMonitorAct::Tell(ModuleUpd::Interact(it)) && it.location == location
            && it.kind == kind && it.target.tag == tag && it.target.monitor == bar.monitor),
        bar.answers(BarUpd::Interact { location, kind, tag: None }, act) ==> act is Nothing,
        bar.answers(BarUpd::Sizes(sizes), act) ==> act is Reload,
        bar.answers(BarUpd::Other, act) ==> act is Nothing,
        bar.after(BarUpd::Sizes(sizes)).sizes == sizes,
        bar.after(BarUpd::Sizes(sizes)).monitor == bar.monitor,
        bar.after(BarUpd::BarTui(tui)) == bar,
        bar.after(BarUpd::Interact { location, kind, tag: Some(tag) }) == bar,
        bar.after(BarUpd::Interact { location, kind, tag: None }) == bar,
        bar.after(BarUpd::Other) == bar,
{
}

/// What a module shows on a monitor: what it has for all, what it has for that
/// monitor, or nothing.
pub proof fn law_module_shows_what_it_has(elem: Elem, own: Assoc<Elem>, monitor: Seq<char>)
    ensures
        BarTuiElem::Shared(elem).on(monitor) == seq![auto_view(elem@)],
        own@.dom().contains(monitor) ==> BarTuiElem::ByMonitor(own).on(monitor) == seq![
            auto_view(own@[monitor]@),
        ],
        !own@.dom().contains(monitor) ==> BarTuiElem::ByMonitor(own).on(monitor).len() == 0,
        BarTuiElem::Hide.on(monitor).len() == 0,
{
}

/// The modules of a side stand in their order.
pub proof fn law_modules_stand_in_order(
    first: Seq<BarTuiElem>,
    elem: BarTuiElem,
    others: Seq<BarTuiElem>,
    monitor: Seq<char>,
)
    ensures
        parts_on(first + seq![elem] + others, monitor) == parts_on(first, monitor) + elem.on(
            monitor,
        ) + parts_on(others, monitor),
        parts_on(Seq::empty(), monitor).len() == 0,
    decreases others.len(),
{
    let all = first + seq![elem] + others;
    if others.len() == 0 {
        assert(all.drop_last() =~= first);
        assert(all.last() == elem);
        assert(parts_on(all, monitor) =~= parts_on(first, monitor) + elem.on(monitor) + parts_on(
            others,
            monitor,
        ));
    } else {
        law_modules_stand_in_order(first, elem, others.drop_last(), monitor);
        assert(all.drop_last() =~= first + seq![elem] + others.drop_last());
        assert(all.last() == others.last());
        assert(parts_on(all, monitor) =~= parts_on(first, monitor) + elem.on(monitor) + parts_on(
            others,
            monitor,
        ));
    }
}

/// The modules on the left stand at the left, those on the right at the right, with
/// all the room that is left between them and a cell of room at both ends.
pub proof fn law_bar_has_two_sides(tui: BarTui, monitor: Seq<char>)
    ensures
        tui.shown(monitor) matches ElemView::Stack { axis, items } && {
            let left = parts_on(tui.left@, monitor);
            let right = parts_on(tui.right@, monitor);
            let middle = 1 + left.len() as int;
            &&& axis == Axis::X
            &&& items.len() == left.len() + right.len() + 3
            &&& items[0] == length_view(1, ElemView::Empty)
            &&& items.subrange(1, middle) == left
            &&& items[middle] == fill_view(1, ElemView::Empty)
            &&& items.subrange(middle + 1, middle + 1 + right.len()) == right
            &&& items.last() == length_view(1, ElemView::Empty)
        },
{
    let items = tui.shown(monitor)->Stack_items;
    let left = parts_on(tui.left@, monitor);
    let right = parts_on(tui.right@, monitor);
    let middle = 1 + left.len() as int;
    assert(items.subrange(1, middle) =~= left);
    assert(items.subrange(middle + 1, middle + 1 + right.len()) =~= right);
}

/// The modules that are named and loaded are picked, in the order of their names;
/// the others are passed over.
pub proof fn law_loaded_modules_are_picked(
    modules: Map<Seq<char>, BarTuiElem>,
    ids: Seq<Seq<char>>,
)
    ensures
        picked(modules, ids).len() == ids.filter(|id: Seq<char>| modules.dom().contains(id)).len(),
        forall|i: int|
            0 <= i < picked(modules, ids).len() ==> #[trigger] picked(modules, ids)[i]
                == modules[ids.filter(|id: Seq<char>| modules.dom().contains(id))[i]],
    decreases ids.len(),
{
    reveal(Seq::filter);
    if ids.len() > 0 {
        law_loaded_modules_are_picked(modules, ids.drop_last());
    }
}

/// A module shows what it last asked to have shown; a menu that it opens changes
/// nothing in the bar.
pub proof fn law_module_shows_what_it_asked_for(tui: BarTuiElem, act: ModuleAct, monitor: Seq<char>)
    ensures
        act matches ModuleAct::RenderAll(elem) ==> after_act(tui, act).on(monitor) == seq![
            auto_view(elem@),
        ],
        act matches ModuleAct::RenderByMonitor(own) ==> (own@.dom().contains(monitor) ==> after_act(
            tui,
            act,
        ).on(monitor) == seq![auto_view(own@[monitor]@)]),
        act matches ModuleAct::RenderByMonitor(own) ==> (!own@.dom().contains(monitor)
            ==> after_act(tui, act).on(monitor).len() == 0),
        act is HideModule ==> after_act(tui, act).on(monitor).len() == 0,
        act is OpenMenu ==> after_act(tui, act) == tui,
{
}

/// Before a module has asked for anything it shows an empty element.
pub proof fn law_new_module_is_blank(tui: BarTuiElem, monitor: Seq<char>)
    requires
        is_blank(tui),
    ensures
        tui.on(monitor) == seq![auto_view(ElemView::Empty)],
{
}

/// Lists that show the same, place by place, make the same bar.
pub proof fn law_same_parts_same_bar(a: Seq<BarTuiElem>, b: Seq<BarTuiElem>, monitor: Seq<char>)
    requires
        same_parts(a, b),
    ensures
        parts_on(a, monitor) == parts_on(b, monitor),
    decreases a.len(),
{
    if a.len() > 0 {
        assert forall|i: int| 0 <= i < a.len() - 1 implies same_shown(
            #[trigger] a.drop_last()[i],
            b.drop_last()[i],
        ) by {
            assert(same_shown(a[i], b[i]));
        }
        law_same_parts_same_bar(a.drop_last(), b.drop_last(), monitor);
        assert(same_shown(a[a.len() - 1], b[a.len() - 1]));
        assert(a.last().on(monitor) == b.last().on(monitor));
    }
}

} // verus!
