//! The workspaces in the bar.
use vstd::prelude::*;
use crate::assoc::{as_map, has_key, lemma_entry, place_of, Assoc};
use crate::data::BasicWorkspace;
use crate::tags::{tag_bytes, ByteOrder, InteractTagRegistry, TagCounter};
use crate::tui::{
    auto_view, stack_view, Axis, CustomId, Elem, ElemView, InteractKind, ItemView, MouseButton,
    Style,
};
use crate::xtui::text::Color;
use crate::xtui::StackBuilder;

verus! {

/// A workspace that the user can switch to by the element with this tag.
#[derive(Debug)]
pub struct Switch {
    pub tag: CustomId,
    pub workspace: String,
}

/// What a [`Switch`] says: the tag and the workspace.
pub open spec fn switch_views(list: Seq<Switch>) -> Seq<(Seq<u8>, Seq<char>)> {
    Seq::new(list.len(), |i: int| (list[i].tag@, list[i].workspace@))
}

/// Only a click with the left button switches.
pub fn switches(kind: InteractKind) -> (r: bool)
    ensures
        r == (kind == InteractKind::Click(MouseButton::Left)),
{
    kind == InteractKind::Click(MouseButton::Left)
}

/// The name of a workspace: green where it is active, underlined while the mouse
/// is over it.
pub open spec fn name_view(name: Seq<char>, active: bool, tag: Seq<u8>) -> ElemView {
    let fg = if active {
        Color::Green
    } else {
        Color::Unset
    };
    ElemView::Interactive {
        inner: Box::new(
            ElemView::Text { text: name, style: Style { fg, bold: false, underlined: false } },
        ),
        tag,
        hovered: Some(
            Box::new(
                ElemView::Text { text: name, style: Style { fg, bold: false, underlined: true } },
            ),
        ),
    }
}

fn mk_name(name: &String, active: bool, tag: &CustomId) -> (r: Elem)
    ensures
        r@ == name_view(name@, active, tag@),
{
    let fg = if active {
        Color::Green
    } else {
        Color::Unset
    };
    let usual = Elem::text(name, Style { fg, bold: false, underlined: false });
    let under = Elem::text(name, Style { fg, bold: false, underlined: true });
    usual.interactive_hover(tag.clone(), under)
}

/// What was made for a workspace when it was first seen: its tag, and its two
/// looks.
#[verifier::ext_equal]
pub struct Known {
    pub tag: Seq<u8>,
    pub inactive: ElemView,
    pub active: ElemView,
}

/// What the module shows and what was given out for it.
#[verifier::ext_equal]
pub struct HyprShown {
    pub next: int,
    pub known: Map<Seq<char>, Known>,
    pub switches: Seq<(Seq<u8>, Seq<char>)>,
    pub by_monitor: Map<Seq<char>, Seq<ItemView>>,
}

/// The items of a monitor so far.
pub open spec fn items_on(by_monitor: Map<Seq<char>, Seq<ItemView>>, monitor: Seq<char>) -> Seq<
    ItemView,
> {
    if by_monitor.dom().contains(monitor) {
        by_monitor[monitor]
    } else {
        Seq::empty()
    }
}

/// What is known of a workspace: what was known, or what is made for it now.
pub open spec fn known_of(shown: HyprShown, ws: BasicWorkspace, order: ByteOrder) -> Known {
    if shown.known.dom().contains(ws.id@) {
        shown.known[ws.id@]
    } else {
        let tag = tag_bytes(shown.next as u64, order);
        Known {
            tag,
            inactive: name_view(ws.name@, false, tag),
            active: name_view(ws.name@, true, tag),
        }
    }
}

/// The module with one more workspace. One that is on no monitor is passed over.
pub open spec fn with_workspace(shown: HyprShown, ws: BasicWorkspace, order: ByteOrder) -> HyprShown {
    match ws.monitor {
        None => shown,
        Some(monitor) => {
            let is_new = !shown.known.dom().contains(ws.id@);
            let known = known_of(shown, ws, order);
            let look = if ws.is_active {
                known.active
            } else {
                known.inactive
            };
            HyprShown {
                next: if is_new {
                    shown.next + 1
                } else {
                    shown.next
                },
                known: shown.known.insert(ws.id@, known),
                switches: if is_new {
                    shown.switches.push((known.tag, ws.id@))
                } else {
                    shown.switches
                },
                by_monitor: shown.by_monitor.insert(
                    monitor@,
                    items_on(shown.by_monitor, monitor@).push(auto_view(look)).push(
                        auto_view(ElemView::Spacing { axis: Axis::X, len: 1 }),
                    ),
                ),
            }
        },
    }
}

/// The module with these workspaces, one after the other.
pub open spec fn with_workspaces(
    shown: HyprShown,
    list: Seq<BasicWorkspace>,
    order: ByteOrder,
) -> HyprShown
    decreases list.len(),
{
    if list.len() == 0 {
        shown
    } else {
        with_workspace(with_workspaces(shown, list.drop_last(), order), list.last(), order)
    }
}

/// What a registry knows of workspaces.
pub open spec fn registry_known(registry: InteractTagRegistry<(Elem, Elem)>) -> Map<
    Seq<char>,
    Known,
> {
    Map::new(
        |id: Seq<char>| registry.key_to_tag@.dom().contains(id),
        |id: Seq<char>|
            {
                let (tag, (inactive, active)) = registry.key_to_tag@[id];
                Known { tag: tag@, inactive: inactive@, active: active@ }
            },
    )
}

/// Before any workspace.
pub open spec fn nothing_shown(
    counter: TagCounter,
    registry: InteractTagRegistry<(Elem, Elem)>,
) -> HyprShown {
    HyprShown {
        next: counter.next as int,
        known: registry_known(registry),
        switches: Seq::empty(),
        by_monitor: Map::empty(),
    }
}

/// What stacks hold.
pub open spec fn stack_items(stacks: Map<Seq<char>, StackBuilder>) -> Map<Seq<char>, Seq<ItemView>> {
    Map::new(|name: Seq<char>| stacks.dom().contains(name), |name: Seq<char>| stacks[name]@)
}

/// What elements show.
pub open spec fn elem_views(elems: Map<Seq<char>, Elem>) -> Map<Seq<char>, ElemView> {
    Map::new(|name: Seq<char>| elems.dom().contains(name), |name: Seq<char>| elems[name]@)
}

/// Items as stacks.
pub open spec fn stacked(items: Map<Seq<char>, Seq<ItemView>>) -> Map<Seq<char>, ElemView> {
    Map::new(
        |name: Seq<char>| items.dom().contains(name),
        |name: Seq<char>| stack_view(Axis::X, items[name]),
    )
}

proof fn lemma_next_bound(shown: HyprShown, list: Seq<BasicWorkspace>, order: ByteOrder)
    ensures
        shown.next <= with_workspaces(shown, list, order).next <= shown.next + list.len(),
    decreases list.len(),
{
    if list.len() > 0 {
        lemma_next_bound(shown, list.drop_last(), order);
    }
}

/// Adds a workspace to the stack of its monitor.
fn push_workspace(stacks: &mut Assoc<StackBuilder>, monitor: &String, look: Elem)
    requires
        old(stacks).wf(),
        forall|name: Seq<char>| #[trigger]
            old(stacks)@.dom().contains(name) ==> old(stacks)@[name].axis == Axis::X,
    ensures
        final(stacks).wf(),
        forall|name: Seq<char>| #[trigger]
            final(stacks)@.dom().contains(name) ==> final(stacks)@[name].axis == Axis::X,
        stack_items(final(stacks)@) == stack_items(old(stacks)@).insert(
            monitor@,
            items_on(stack_items(old(stacks)@), monitor@).push(auto_view(look@)).push(
                auto_view(ElemView::Spacing { axis: Axis::X, len: 1 }),
            ),
        ),
{
    let ghost before = stacks@;
    let mut stack = match stacks.get(monitor) {
        Some(stack) => stack.clone(),
        None => StackBuilder::new(Axis::X),
    };
    stack.push(look);
    stack.spacing(1);
    let ghost held = stack@;
    stacks.insert(monitor.clone(), stack);
    proof {
        assert(stack_items(stacks@) =~= stack_items(before).insert(monitor@, held));
    }
}

/// The stacks as elements.
fn build_all(stacks: Assoc<StackBuilder>) -> (r: Assoc<Elem>)
    requires
        stacks.wf(),
        forall|name: Seq<char>| #[trigger]
            stacks@.dom().contains(name) ==> stacks@[name].axis == Axis::X,
    ensures
        r.wf(),
        elem_views(r@) == stacked(stack_items(stacks@)),
{
    let mut entries: Vec<(String, Elem)> = Vec::new();
    let mut i: usize = 0;
    while i < stacks.entries.len()
        invariant
            0 <= i <= stacks.entries@.len(),
            stacks.wf(),
            forall|name: Seq<char>| #[trigger]
                stacks@.dom().contains(name) ==> stacks@[name].axis == Axis::X,
            entries@.len() == i,
            forall|j: int|
                0 <= j < i ==> {
                    let (name, elem) = #[trigger] entries@[j];
                    &&& name == stacks.entries@[j].0
                    &&& elem@ == stack_view(Axis::X, stacks.entries@[j].1@)
                },
        decreases stacks.entries@.len() - i,
    {
        proof {
            lemma_entry(stacks.entries@, i as int);
            assert(stacks@.dom().contains(stacks.entries@[i as int].0@));
        }
        let name = stacks.entries[i].0.clone();
        let elem = stacks.entries[i].1.clone().build();
        entries.push((name, elem));
        i += 1;
    }
    let r = Assoc { entries };
    proof {
        let a = stacks.entries@;
        let b = r.entries@;
        assert forall|j: int, k: int| 0 <= j < k < b.len() implies (#[trigger] b[j]).0@ != (
        #[trigger] b[k]).0@ by {
            assert(a[j].0@ != a[k].0@);
        }
        assert forall|name: Seq<char>| has_key(a, name) == has_key(b, name) by {
            if has_key(a, name) {
                assert(b[place_of(a, name)].0@ == name);
            }
            if has_key(b, name) {
                assert(a[place_of(b, name)].0@ == name);
            }
        }
        assert forall|name: Seq<char>| has_key(a, name) implies elem_views(as_map(b))[name] == stacked(
            stack_items(as_map(a)),
        )[name] by {
            let j = place_of(a, name);
            assert(a[j].0@ == name && b[j].0@ == name);
            lemma_entry(a, j);
            lemma_entry(b, j);
        }
        assert(elem_views(r@) =~= stacked(stack_items(stacks@)));
    }
    r
}

/// What the module shows on each monitor. A workspace keeps its tag and its
/// looks from one call to the next; for those that are new, the result says how
/// to switch to them.
pub fn render_workspaces(
    list: &Vec<BasicWorkspace>,
    registry: &mut InteractTagRegistry<(Elem, Elem)>,
    counter: &mut TagCounter,
) -> (r: (Assoc<Elem>, Vec<Switch>))
    requires
        old(registry).wf(*old(counter)),
        old(counter).next + list@.len() <= u64::MAX,
    ensures
        final(registry).wf(*final(counter)),
        final(counter).order == old(counter).order,
        r.0.wf(),
        ({
            let shown = with_workspaces(
                nothing_shown(*old(counter), *old(registry)),
                list@,
                old(counter).order,
            );
            &&& final(counter).next == shown.next
            &&& registry_known(*final(registry)) == shown.known
            &&& elem_views(r.0@) == stacked(shown.by_monitor)
            &&& switch_views(r.1@) == shown.switches
        }),
{
    let ghost order = counter.order;
    let ghost first = nothing_shown(*counter, *registry);
    let mut stacks: Assoc<StackBuilder> = Assoc::new();
    let mut new_switches: Vec<Switch> = Vec::new();
    let mut i: usize = 0;
    proof {
        assert(list@.take(0) =~= Seq::empty());
        assert(switch_views(new_switches@) =~= Seq::empty());
        assert(stack_items(stacks@) =~= Map::empty());
    }
    while i < list.len()
        invariant
            0 <= i <= list@.len(),
            registry.wf(*counter),
            counter.order == order,
            first.next + list@.len() <= u64::MAX,
            stacks.wf(),
            forall|name: Seq<char>| #[trigger]
                stacks@.dom().contains(name) ==> stacks@[name].axis == Axis::X,
            ({
                let shown = with_workspaces(first, list@.take(i as int), order);
                &&& counter.next == shown.next
                &&& registry_known(*registry) == shown.known
                &&& stack_items(stacks@) == shown.by_monitor
                &&& switch_views(new_switches@) == shown.switches
            }),
        decreases list@.len() - i,
    {
        let ghost shown = with_workspaces(first, list@.take(i as int), order);
        proof {
            lemma_next_bound(first, list@.take(i as int), order);
            assert(list@.take(i + 1).drop_last() =~= list@.take(i as int));
            assert(list@.take(i + 1).last() == list@[i as int]);
        }
        let ws = &list[i];
        if let Some(monitor) = &ws.monitor {
            let is_new = !registry.key_to_tag.contains(&ws.id.id);
            let ghost known_before = registry_known(*registry);
            let ghost map_before = registry.key_to_tag@;
            let name = &ws.name;
            let init = |tag: &CustomId| -> (looks: (Elem, Elem))
                ensures
                    looks.0@ == name_view(name@, false, tag@),
                    looks.1@ == name_view(name@, true, tag@),
                { (mk_name(name, false, tag), mk_name(name, true, tag)) };
            let (tag, at) = registry.get_or_init(counter, &ws.id.id, init);
            proof {
                lemma_entry(registry.key_to_tag.entries@, at as int);
                assert(registry_known(*registry) =~= known_before.insert(
                    ws.id@,
                    known_of(shown, *ws, order),
                ));
            }
            let look = if ws.is_active {
                registry.key_to_tag.entries[at].1.1.1.clone()
            } else {
                registry.key_to_tag.entries[at].1.1.0.clone()
            };
            if is_new {
                let ghost had = switch_views(new_switches@);
                new_switches.push(Switch { tag: tag.clone(), workspace: ws.id.id.clone() });
                proof {
                    assert(switch_views(new_switches@) =~= had.push((tag@, ws.id@)));
                }
            }
            push_workspace(&mut stacks, monitor, look);
        }
        i += 1;
    }
    proof {
        assert(list@.take(i as int) =~= list@);
    }
    (build_all(stacks), new_switches)
}

/// A workspace that was seen before keeps its tag.
pub proof fn law_workspaces_keep_their_tags(
    shown: HyprShown,
    list: Seq<BasicWorkspace>,
    order: ByteOrder,
    id: Seq<char>,
)
    requires
        shown.known.dom().contains(id),
    ensures
        with_workspaces(shown, list, order).known.dom().contains(id),
        with_workspaces(shown, list, order).known[id] == shown.known[id],
    decreases list.len(),
{
    if list.len() > 0 {
        law_workspaces_keep_their_tags(shown, list.drop_last(), order, id);
    }
}

/// The module shows something on exactly the monitors that have a workspace.
pub proof fn law_monitors_with_workspaces(
    shown: HyprShown,
    list: Seq<BasicWorkspace>,
    order: ByteOrder,
    monitor: Seq<char>,
)
    requires
        shown.by_monitor == Map::<Seq<char>, Seq<ItemView>>::empty(),
    ensures
        with_workspaces(shown, list, order).by_monitor.dom().contains(monitor) <==> exists|i: int|
            0 <= i < list.len() && ((#[trigger] list[i]).monitor matches Some(name) && name@
                == monitor),
    decreases list.len(),
{
    if list.len() > 0 {
        let front = list.drop_last();
        law_monitors_with_workspaces(shown, front, order, monitor);
        if exists|i: int|
            0 <= i < front.len() && ((#[trigger] front[i]).monitor matches Some(name) && name@
                == monitor) {
            let i = choose|i: int|
                0 <= i < front.len() && ((#[trigger] front[i]).monitor matches Some(name) && name@
                    == monitor);
            assert(list[i] == front[i]);
        }
        if exists|i: int|
            0 <= i < list.len() && ((#[trigger] list[i]).monitor matches Some(name) && name@
                == monitor) {
            let i = choose|i: int|
                0 <= i < list.len() && ((#[trigger] list[i]).monitor matches Some(name) && name@
                    == monitor);
            if i < list.len() - 1 {
                assert(front[i] == list[i]);
            }
        }
        assert(list[list.len() - 1] == list.last());
    }
}

/// The name of a workspace is shown as it is, green exactly where it is active,
/// and reacts under its tag. The mouse over it underlines it and changes nothing
/// else.
pub proof fn law_name_is_shown(name: Seq<char>, active: bool, tag: Seq<u8>)
    ensures
        name_view(name, active, tag) matches ElemView::Interactive { inner, tag: own, hovered } && {
            &&& own == tag
            &&& *inner matches ElemView::Text { text, style } && {
                &&& text == name
                &&& style.fg == if active {
                    Color::Green
                } else {
                    Color::Unset
                }
                &&& !style.bold
                &&& !style.underlined
                &&& hovered matches Some(under) && *under == (ElemView::Text {
                    text: name,
                    style: Style { fg: style.fg, bold: false, underlined: true },
                })
            }
        },
{
}

/// What one more workspace adds. On its monitor it comes last, active or not as it
/// is, with a cell of room behind it; other monitors stay as they are. One that is
/// new gets the next tag, which switches to it; one on no monitor adds nothing.
pub proof fn law_workspace_joins_its_monitor(shown: HyprShown, ws: BasicWorkspace, order: ByteOrder)
    ensures
        ({
            let after = with_workspace(shown, ws, order);
            let id = ws.id@;
            let is_new = !shown.known.dom().contains(id);
            &&& ws.monitor is None ==> after == shown
            &&& ws.monitor matches Some(monitor) ==> {
                let had = if shown.by_monitor.dom().contains(monitor@) {
                    shown.by_monitor[monitor@]
                } else {
                    Seq::empty()
                };
                let items = after.by_monitor[monitor@];
                &&& after.by_monitor.dom() == shown.by_monitor.dom().insert(monitor@)
                &&& forall|other: Seq<char>|
                    other != monitor@ && shown.by_monitor.dom().contains(other)
                        ==> #[trigger] after.by_monitor[other] == shown.by_monitor[other]
                &&& items.len() == had.len() + 2
                &&& items.take(had.len() as int) == had
                &&& ws.is_active ==> items[had.len() as int] == auto_view(after.known[id].active)
                &&& !ws.is_active ==> items[had.len() as int] == auto_view(
                    after.known[id].inactive,
                )
                &&& items.last() == auto_view(ElemView::Spacing { axis: Axis::X, len: 1 })
                &&& after.known.dom() == shown.known.dom().insert(id)
                &&& forall|other: Seq<char>|
                    shown.known.dom().contains(other) ==> #[trigger] after.known[other]
                        == shown.known[other]
                &&& !is_new ==> after.next == shown.next && after.switches == shown.switches
                &&& is_new ==> {
                    let tag = tag_bytes(shown.next as u64, order);
                    &&& after.next == shown.next + 1
                    &&& after.known[id].tag == tag
                    &&& after.known[id].active == name_view(ws.name@, true, tag)
                    &&& after.known[id].inactive == name_view(ws.name@, false, tag)
                    &&& after.switches == shown.switches.push((tag, id))
                }
            }
        }),
{
    let after = with_workspace(shown, ws, order);
    if let Some(monitor) = ws.monitor {
        assert(after.by_monitor.dom() =~= shown.by_monitor.dom().insert(monitor@));
        assert(after.known.dom() =~= shown.known.dom().insert(ws.id@));
        let had = items_on(shown.by_monitor, monitor@);
        assert(after.by_monitor[monitor@].take(had.len() as int) =~= had);
    }
}

/// The workspaces stand in their order: to show some and then others is to show
/// them all.
pub proof fn law_workspaces_stand_in_order(
    shown: HyprShown,
    first: Seq<BasicWorkspace>,
    others: Seq<BasicWorkspace>,
    order: ByteOrder,
)
    ensures
        with_workspaces(shown, first + others, order) == with_workspaces(
            with_workspaces(shown, first, order),
            others,
            order,
        ),
    decreases others.len(),
{
    if others.len() == 0 {
        assert(first + others =~= first);
    } else {
        assert((first + others).drop_last() =~= first + others.drop_last());
        law_workspaces_stand_in_order(shown, first, others.drop_last(), order);
    }
}

/// One workspace after others is that workspace added to them, and none add
/// nothing.
pub proof fn law_workspaces_come_one_by_one(
    shown: HyprShown,
    list: Seq<BasicWorkspace>,
    ws: BasicWorkspace,
    order: ByteOrder,
)
    ensures
        with_workspaces(shown, Seq::empty(), order) == shown,
        with_workspaces(shown, list.push(ws), order) == with_workspace(
            with_workspaces(shown, list, order),
            ws,
            order,
        ),
{
    assert(list.push(ws).drop_last() =~= list);
}

/// A workspace can be switched to as soon as it is shown: each that is new has a
/// switch under the very tag that its name reacts under, and a switch leads to the
/// workspace whose tag it carries.
pub proof fn law_switches_lead_to_their_workspaces(
    shown: HyprShown,
    list: Seq<BasicWorkspace>,
    order: ByteOrder,
)
    ensures
        ({
            let after = with_workspaces(shown, list, order);
            &&& after.switches.len() >= shown.switches.len()
            &&& after.switches.take(shown.switches.len() as int) == shown.switches
            &&& forall|id: Seq<char>|
                #![trigger after.known.dom().contains(id)]
                after.known.dom().contains(id) && !shown.known.dom().contains(id)
                    ==> after.switches.skip(shown.switches.len() as int).contains(
                    (after.known[id].tag, id),
                )
            &&& forall|k: int|
                shown.switches.len() <= k < after.switches.len() ==> after.known.dom().contains(
                    (#[trigger] after.switches[k]).1,
                ) && after.known[after.switches[k].1].tag == after.switches[k].0
        }),
    decreases list.len(),
{
    let had = shown.switches.len() as int;
    if list.len() == 0 {
        assert(shown.switches.take(had) =~= shown.switches);
    } else {
        let before = with_workspaces(shown, list.drop_last(), order);
        let after = with_workspaces(shown, list, order);
        let ws = list.last();
        law_switches_lead_to_their_workspaces(shown, list.drop_last(), order);
        assert(after == with_workspace(before, ws, order));
        assert(after.switches.take(had) =~= before.switches.take(had));
        assert forall|id: Seq<char>|
            #![trigger after.known.dom().contains(id)]
            after.known.dom().contains(id) && !shown.known.dom().contains(
                id,
            ) implies after.switches.skip(had).contains((after.known[id].tag, id)) by {
            let pair = (after.known[id].tag, id);
            if before.known.dom().contains(id) {
                assert(before.switches.skip(had).contains((before.known[id].tag, id)));
                let k = before.switches.skip(had).index_of(pair);
                assert(after.switches.skip(had)[k] == pair);
            } else {
                assert(after.switches.skip(had)[before.switches.len() - had] == pair);
            }
        }
        assert forall|k: int| had <= k < after.switches.len() implies after.known.dom().contains(
            (#[trigger] after.switches[k]).1,
        ) && after.known[after.switches[k].1].tag == after.switches[k].0 by {
            if k < before.switches.len() {
                assert(after.switches[k] == before.switches[k]);
            }
        }
    }
}

/// Lists and maps say what their members say: a switch its tag and its workspace, a
/// monitor the stack of its items from left to right.
pub proof fn law_members_are_said_one_by_one(
    list: Seq<Switch>,
    items: Map<Seq<char>, Seq<ItemView>>,
    elems: Map<Seq<char>, Elem>,
    i: int,
    name: Seq<char>,
)
    ensures
        switch_views(list).len() == list.len(),
        0 <= i < list.len() ==> switch_views(list)[i] == (list[i].tag@, list[i].workspace@),
        stacked(items).dom() == items.dom(),
        items.dom().contains(name) ==> stacked(items)[name] == (ElemView::Stack {
            axis: Axis::X,
            items: items[name],
        }),
        elem_views(elems).dom() == elems.dom(),
        elems.dom().contains(name) ==> elem_views(elems)[name] == elems[name]@,
{
    assert(stacked(items).dom() =~= items.dom());
    assert(elem_views(elems).dom() =~= elems.dom());
}

/// The module begins without anything shown, with what is known of workspaces so far
/// and with the next tag that the counter gives.
pub proof fn law_module_begins_empty(
    counter: TagCounter,
    registry: InteractTagRegistry<(Elem, Elem)>,
    id: Seq<char>,
)
    ensures
        ({
            let shown = nothing_shown(counter, registry);
            &&& shown.next == counter.next
            &&& shown.switches.len() == 0
            &&& forall|name: Seq<char>| !(#[trigger] shown.by_monitor.dom().contains(name))
            &&& shown.known.dom().contains(id) <==> registry.key_to_tag@.dom().contains(id)
            &&& registry.key_to_tag@.dom().contains(id) ==> {
                let (tag, (inactive, active)) = registry.key_to_tag@[id];
                &&& shown.known[id].tag == tag@
                &&& shown.known[id].inactive == inactive@
                &&& shown.known[id].active == active@
            }
        }),
{
}

} // verus!
