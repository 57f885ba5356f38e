//! The connected monitors and how their set changes.
use vstd::prelude::*;
use crate::assoc::{lemma_entry, place_of, Assoc};
use crate::floats::F64;
use crate::strs::texts;

verus! {

#[derive(Debug)]
pub struct MonitorInfo {
    pub name: String,
    pub scale: F64,
    pub width: u32,
    pub height: u32,
}

impl Clone for MonitorInfo {
    fn clone(&self) -> (r: Self)
        ensures
            r == *self,
    {
        MonitorInfo {
            name: self.name.clone(),
            scale: self.scale,
            width: self.width,
            height: self.height,
        }
    }
}

impl MonitorInfo {
    /// Whether both say the same of a monitor.
    pub open spec fn equals(self, other: MonitorInfo) -> bool {
        &&& self.name@ == other.name@
        &&& self.scale.equals(other.scale)
        &&& self.width == other.width
        &&& self.height == other.height
    }

    pub fn same(&self, other: &Self) -> (r: bool)
        ensures
            r == self.equals(*other),
    {
        self.name == other.name && self.scale.same_number(other.scale) && self.width == other.width
            && self.height == other.height
    }
}

/// A resolution that a monitor offers.
#[derive(Clone, Copy, Debug, PartialEq, Eq, Structural)]
pub struct MonitorMode {
    pub width: u32,
    pub height: u32,
    pub current: bool,
}

/// What the compositor reports of one output.
#[derive(Debug)]
pub struct MonitorData {
    pub name: String,
    pub scale: F64,
    pub modes: Vec<MonitorMode>,
    pub enabled: bool,
}

/// The first mode that is in use.
pub open spec fn current_mode(modes: Seq<MonitorMode>) -> Option<MonitorMode>
    decreases modes.len(),
{
    if modes.len() == 0 {
        None
    } else if modes[0].current {
        Some(modes[0])
    } else {
        current_mode(modes.drop_first())
    }
}

/// The monitor that an output is: none where it is off or has no mode in use.
pub open spec fn monitor_of(data: MonitorData) -> Option<MonitorInfo> {
    if data.enabled {
        match current_mode(data.modes@) {
            Some(mode) => Some(
                MonitorInfo {
                    name: data.name,
                    scale: data.scale,
                    width: mode.width,
                    height: mode.height,
                },
            ),
            None => None,
        }
    } else {
        None
    }
}

/// The monitors among the outputs, by name. Of two with one name the later counts.
pub open spec fn monitors_of(data: Seq<MonitorData>) -> Map<Seq<char>, MonitorInfo>
    decreases data.len(),
{
    if data.len() == 0 {
        Map::empty()
    } else {
        let before = monitors_of(data.drop_last());
        match monitor_of(data.last()) {
            Some(info) => before.insert(info.name@, info),
            None => before,
        }
    }
}

/// Each monitor stands under its own name.
pub open spec fn named_by_key(monitors: Map<Seq<char>, MonitorInfo>) -> bool {
    forall|name: Seq<char>| #[trigger]
        monitors.dom().contains(name) ==> monitors[name].name@ == name
}

/// The first mode in use, if any.
pub fn find_current_mode(modes: &Vec<MonitorMode>) -> (r: Option<MonitorMode>)
    ensures
        r == current_mode(modes@),
{
    let mut i: usize = 0;
    proof {
        assert(modes@.subrange(0, modes@.len() as int) =~= modes@);
    }
    while i < modes.len()
        invariant
            0 <= i <= modes@.len(),
            current_mode(modes@) == current_mode(modes@.subrange(i as int, modes@.len() as int)),
        decreases modes@.len() - i,
    {
        let ghost rest = modes@.subrange(i as int, modes@.len() as int);
        proof {
            assert(rest[0] == modes@[i as int]);
            assert(rest.drop_first() =~= modes@.subrange(i + 1, modes@.len() as int));
        }
        let mode = modes[i];
        if mode.current {
            return Some(mode);
        }
        i += 1;
    }
    None
}

/// The monitors among the outputs.
pub fn collect_monitors(data: Vec<MonitorData>) -> (r: Assoc<MonitorInfo>)
    ensures
        r.wf(),
        r@ == monitors_of(data@),
        named_by_key(r@),
{
    let mut monitors: Assoc<MonitorInfo> = Assoc::new();
    let mut i: usize = 0;
    while i < data.len()
        invariant
            0 <= i <= data@.len(),
            monitors.wf(),
            monitors@ == monitors_of(data@.take(i as int)),
            named_by_key(monitors@),
        decreases data@.len() - i,
    {
        proof {
            assert(data@.take(i + 1).drop_last() =~= data@.take(i as int));
            assert(data@.take(i + 1).last() == data@[i as int]);
        }
        let item = &data[i];
        if item.enabled {
            if let Some(mode) = find_current_mode(&item.modes) {
                monitors.insert(
                    item.name.clone(),
                    MonitorInfo {
                        name: item.name.clone(),
                        scale: item.scale,
                        width: mode.width,
                        height: mode.height,
                    },
                );
            }
        }
        i += 1;
    }
    proof {
        assert(data@.take(data@.len() as int) =~= data@);
    }
    monitors
}

/// Whether two sets of monitors are the same, monitor by monitor.
pub open spec fn same_monitors(
    a: Map<Seq<char>, MonitorInfo>,
    b: Map<Seq<char>, MonitorInfo>,
) -> bool {
    &&& a.dom() == b.dom()
    &&& forall|name: Seq<char>| #[trigger] a.dom().contains(name) ==> a[name].equals(b[name])
}

/// Whether every monitor of `a` is in `b`, unchanged.
fn all_within(a: &Assoc<MonitorInfo>, b: &Assoc<MonitorInfo>) -> (r: bool)
    requires
        a.wf(),
        b.wf(),
    ensures
        r == (forall|name: Seq<char>| #[trigger]
            a@.dom().contains(name) ==> b@.dom().contains(name) && a@[name].equals(b@[name])),
{
    let mut i: usize = 0;
    while i < a.entries.len()
        invariant
            a.wf(),
            b.wf(),
            0 <= i <= a.entries@.len(),
            forall|j: int|
                0 <= j < i ==> b@.dom().contains((#[trigger] a.entries@[j]).0@)
                    && a.entries@[j].1.equals(b@[a.entries@[j].0@]),
        decreases a.entries@.len() - i,
    {
        let (name, info) = &a.entries[i];
        proof {
            lemma_entry(a.entries@, i as int);
            assert(a@.dom().contains(name@) && a@[name@] == *info);
        }
        match b.get(name) {
            Some(other) => {
                if !info.same(other) {
                    return false;
                }
            },
            None => {
                return false;
            },
        }
        i += 1;
    }
    proof {
        assert forall|name: Seq<char>| #[trigger] a@.dom().contains(name) implies b@.dom().contains(
            name,
        ) && a@[name].equals(b@[name]) by {
            let j = place_of(a.entries@, name);
            assert(a.entries@[j].0@ == name);
        }
    }
    true
}

/// A change of the set of monitors: what it is now and what it was.
#[derive(Debug)]
pub struct MonitorEvent {
    pub data: Assoc<MonitorInfo>,
    pub prev: Assoc<MonitorInfo>,
}

/// The names of the monitors that are gone.
pub open spec fn removed_names(
    prev: Map<Seq<char>, MonitorInfo>,
    data: Map<Seq<char>, MonitorInfo>,
) -> Set<Seq<char>> {
    Set::new(|name: Seq<char>| prev.dom().contains(name) && !data.dom().contains(name))
}

/// The names of the monitors that are new or not what they were.
pub open spec fn changed_names(
    prev: Map<Seq<char>, MonitorInfo>,
    data: Map<Seq<char>, MonitorInfo>,
) -> Set<Seq<char>> {
    Set::new(
        |name: Seq<char>|
            data.dom().contains(name) && !(prev.dom().contains(name) && prev[name].equals(
                data[name],
            )),
    )
}

/// Whether a list holds the names of a set, each once.
pub open spec fn lists_names(list: Seq<String>, names: Set<Seq<char>>) -> bool {
    &&& forall|i: int| 0 <= i < list.len() ==> names.contains((#[trigger] list[i])@)
    &&& forall|name: Seq<char>| #[trigger]
        names.contains(name) ==> exists|i: int| 0 <= i < list.len() && (#[trigger] list[i])@ == name
    &&& forall|i: int, j: int|
        0 <= i < j < list.len() ==> (#[trigger] list[i])@ != (#[trigger] list[j])@
}

/// Whether a list holds the monitors of a set of names, each once.
pub open spec fn lists_monitors(
    list: Seq<MonitorInfo>,
    names: Set<Seq<char>>,
    data: Map<Seq<char>, MonitorInfo>,
) -> bool {
    &&& forall|i: int|
        0 <= i < list.len() ==> names.contains((#[trigger] list[i]).name@) && list[i]
            == data[list[i].name@]
    &&& forall|name: Seq<char>| #[trigger]
        names.contains(name) ==> exists|i: int|
            0 <= i < list.len() && (#[trigger] list[i]).name@ == name
    &&& forall|i: int, j: int|
        0 <= i < j < list.len() ==> (#[trigger] list[i]).name@ != (#[trigger] list[j]).name@
}

/// The names of a list of monitors.
pub open spec fn info_names(list: Seq<MonitorInfo>) -> Seq<Seq<char>> {
    Seq::new(list.len(), |i: int| list[i].name@)
}

/// A list of the names of a set holds these and no others.
pub proof fn lemma_listed_names(list: Seq<String>, names: Set<Seq<char>>)
    requires
        lists_names(list, names),
    ensures
        texts(list).to_set() == names,
{
    assert forall|name: Seq<char>| #[trigger] texts(list).to_set().contains(name) == names.contains(
        name,
    ) by {
        if names.contains(name) {
            let i = choose|i: int| 0 <= i < list.len() && (#[trigger] list[i])@ == name;
            assert(texts(list)[i] == name);
        }
        if texts(list).contains(name) {
            let i = choose|i: int| 0 <= i < texts(list).len() && texts(list)[i] == name;
            assert(list[i]@ == name);
        }
    }
    assert(texts(list).to_set() =~= names);
}

/// A list of the monitors of a set of names has these names and no others.
pub proof fn lemma_listed_monitors(
    list: Seq<MonitorInfo>,
    names: Set<Seq<char>>,
    data: Map<Seq<char>, MonitorInfo>,
)
    requires
        lists_monitors(list, names, data),
    ensures
        info_names(list).to_set() == names,
{
    assert forall|name: Seq<char>| #[trigger] info_names(list).to_set().contains(name)
        == names.contains(name) by {
        if names.contains(name) {
            let i = choose|i: int| 0 <= i < list.len() && (#[trigger] list[i]).name@ == name;
            assert(info_names(list)[i] == name);
        }
        if info_names(list).contains(name) {
            let i = choose|i: int| 0 <= i < info_names(list).len() && info_names(list)[i] == name;
            assert(list[i].name@ == name);
        }
    }
    assert(info_names(list).to_set() =~= names);
}

/// A list of the names of a set, with one more name, lists the set with that name.
pub proof fn lemma_list_more(list: Seq<String>, names: Set<Seq<char>>, name: String)
    requires
        lists_names(list, names),
        !names.contains(name@),
    ensures
        lists_names(list.push(name), names.insert(name@)),
{
    let more = list.push(name);
    assert forall|other: Seq<char>| #[trigger] names.insert(name@).contains(other) implies exists|
        i: int,
    |
        0 <= i < more.len() && (#[trigger] more[i])@ == other by {
        if names.contains(other) {
            let i = choose|i: int| 0 <= i < list.len() && (#[trigger] list[i])@ == other;
            assert(more[i]@ == other);
        } else {
            assert(more[list.len() as int]@ == other);
        }
    }
    assert forall|i: int, j: int| 0 <= i < j < more.len() implies (#[trigger] more[i])@ != (
    #[trigger] more[j])@ by {
        assert(more[i] == list[i]);
    }
}

impl MonitorEvent {
    pub open spec fn wf(&self) -> bool {
        &&& self.data.wf()
        &&& self.prev.wf()
        &&& named_by_key(self.data@)
        &&& named_by_key(self.prev@)
    }

    /// The names of the monitors that are gone.
    pub fn removed(&self) -> (r: Vec<String>)
        requires
            self.wf(),
        ensures
            lists_names(r@, removed_names(self.prev@, self.data@)),
    {
        let mut names: Vec<String> = Vec::new();
        let ghost mut places: Seq<int> = Seq::empty();
        let mut i: usize = 0;
        while i < self.prev.entries.len()
            invariant
                self.wf(),
                0 <= i <= self.prev.entries@.len(),
                places.len() == names@.len(),
                forall|k: int|
                    0 <= k < names@.len() ==> 0 <= #[trigger] places[k] < i && names@[k]
                        == self.prev.entries@[places[k]].0 && !self.data@.dom().contains(names@[k]@),
                forall|k: int, l: int| 0 <= k < l < places.len() ==> places[k] < places[l],
                forall|j: int|
                    0 <= j < i && !self.data@.dom().contains((#[trigger] self.prev.entries@[j]).0@)
                        ==> exists|k: int|
                        0 <= k < names@.len() && (#[trigger] names@[k])@ == self.prev.entries@[j].0@,
            decreases self.prev.entries@.len() - i,
        {
            let name = &self.prev.entries[i].0;
            if !self.data.contains(name) {
                let ghost had = names@;
                names.push(name.clone());
                proof {
                    places = places.push(i as int);
                    assert(names@[had.len() as int]@ == self.prev.entries@[i as int].0@);
                    assert forall|j: int|
                        0 <= j < i + 1 && !self.data@.dom().contains(
                            (#[trigger] self.prev.entries@[j]).0@,
                        ) implies exists|k: int|
                        0 <= k < names@.len() && (#[trigger] names@[k])@ == self.prev.entries@[j].0@ by {
                        if j < i {
                            let k = choose|k: int|
                                0 <= k < had.len() && (#[trigger] had[k])@ == self.prev.entries@[j].0@;
                            assert(names@[k]@ == self.prev.entries@[j].0@);
                        }
                    }
                }
            }
            i += 1;
        }
        proof {
            let gone = removed_names(self.prev@, self.data@);
            assert forall|k: int| 0 <= k < names@.len() implies gone.contains((#[trigger] names@[k])@) by {
                lemma_entry(self.prev.entries@, places[k]);
            }
            assert forall|name: Seq<char>| #[trigger] gone.contains(name) implies exists|k: int|
                0 <= k < names@.len() && (#[trigger] names@[k])@ == name by {
                let j = place_of(self.prev.entries@, name);
                assert(self.prev.entries@[j].0@ == name);
            }
            assert forall|k: int, l: int| 0 <= k < l < names@.len() implies (#[trigger] names@[k])@
                != (#[trigger] names@[l])@ by {
                assert(self.prev.entries@[places[k]].0@ != self.prev.entries@[places[l]].0@);
            }
        }
        names
    }

    /// The monitors that are new or not what they were.
    pub fn added_or_changed(&self) -> (r: Vec<MonitorInfo>)
        requires
            self.wf(),
        ensures
            lists_monitors(r@, changed_names(self.prev@, self.data@), self.data@),
    {
        let mut infos: Vec<MonitorInfo> = Vec::new();
        let ghost mut places: Seq<int> = Seq::empty();
        let ghost names = changed_names(self.prev@, self.data@);
        let mut i: usize = 0;
        while i < self.data.entries.len()
            invariant
                self.wf(),
                names == changed_names(self.prev@, self.data@),
                0 <= i <= self.data.entries@.len(),
                places.len() == infos@.len(),
                forall|k: int|
                    0 <= k < infos@.len() ==> 0 <= #[trigger] places[k] < i && infos@[k]
                        == self.data.entries@[places[k]].1 && names.contains(infos@[k].name@),
                forall|k: int, l: int| 0 <= k < l < places.len() ==> places[k] < places[l],
                forall|j: int|
                    0 <= j < i && names.contains((#[trigger] self.data.entries@[j]).0@)
                        ==> exists|k: int|
                        0 <= k < infos@.len() && (#[trigger] infos@[k]).name@
                            == self.data.entries@[j].0@,
            decreases self.data.entries@.len() - i,
        {
            let info = &self.data.entries[i].1;
            proof {
                lemma_entry(self.data.entries@, i as int);
                assert(info.name@ == self.data.entries@[i as int].0@);
            }
            let changed = match self.prev.get(&info.name) {
                Some(old_info) => !old_info.same(info),
                None => true,
            };
            if changed {
                let ghost had = infos@;
                infos.push(info.clone());
                proof {
                    places = places.push(i as int);
                    assert(infos@[had.len() as int].name@ == self.data.entries@[i as int].0@);
                    assert forall|j: int|
                        0 <= j < i + 1 && names.contains((#[trigger] self.data.entries@[j]).0@) implies exists|
                        k: int,
                    |
                        0 <= k < infos@.len() && (#[trigger] infos@[k]).name@
                            == self.data.entries@[j].0@ by {
                        if j < i {
                            let k = choose|k: int|
                                0 <= k < had.len() && (#[trigger] had[k]).name@
                                    == self.data.entries@[j].0@;
                            assert(infos@[k].name@ == self.data.entries@[j].0@);
                        }
                    }
                }
            }
            i += 1;
        }
        proof {
            assert forall|k: int| 0 <= k < infos@.len() implies names.contains(
                (#[trigger] infos@[k]).name@,
            ) && infos@[k] == self.data@[infos@[k].name@] by {
                lemma_entry(self.data.entries@, places[k]);
            }
            assert forall|name: Seq<char>| #[trigger] names.contains(name) implies exists|k: int|
                0 <= k < infos@.len() && (#[trigger] infos@[k]).name@ == name by {
                let j = place_of(self.data.entries@, name);
                assert(self.data.entries@[j].0@ == name);
            }
            assert forall|k: int, l: int| 0 <= k < l < infos@.len() implies (#[trigger] infos@[k]).name@
                != (#[trigger] infos@[l]).name@ by {
                lemma_entry(self.data.entries@, places[k]);
                lemma_entry(self.data.entries@, places[l]);
                assert(self.data.entries@[places[k]].0@ != self.data.entries@[places[l]].0@);
            }
        }
        infos
    }
}

/// A copy of a set of monitors.
pub fn copy_monitors(monitors: &Assoc<MonitorInfo>) -> (r: Assoc<MonitorInfo>)
    ensures
        r.entries@ == monitors.entries@,
{
    let mut entries: Vec<(String, MonitorInfo)> = Vec::new();
    let mut i: usize = 0;
    while i < monitors.entries.len()
        invariant
            0 <= i <= monitors.entries@.len(),
            entries@ == monitors.entries@.take(i as int),
        decreases monitors.entries@.len() - i,
    {
        let (name, info) = &monitors.entries[i];
        entries.push((name.clone(), info.clone()));
        proof {
            assert(monitors.entries@.take(i + 1) =~= monitors.entries@.take(i as int).push(
                monitors.entries@[i as int],
            ));
        }
        i += 1;
    }
    proof {
        assert(monitors.entries@.take(i as int) =~= monitors.entries@);
    }
    Assoc { entries }
}

/// The monitors as last seen.
#[derive(Debug)]
pub struct State {
    pub data: Assoc<MonitorInfo>,
}

/// How long to wait before the next look at the monitors, in milliseconds,
/// after a look that found nothing new.
pub const NO_CHANGE_SLEEP_MS: u64 = 1000;

/// How long to wait after a look that found a change, in milliseconds.
pub const CHANGE_SLEEP_MS: u64 = 500;

impl State {
    pub open spec fn wf(&self) -> bool {
        self.data.wf() && named_by_key(self.data@)
    }

    /// Before the first look no monitor is known.
    pub fn new() -> (r: Self)
        ensures
            r.wf(),
            r.data@ == Map::<Seq<char>, MonitorInfo>::empty(),
    {
        State { data: Assoc::new() }
    }

    /// Takes in a report of the outputs. An event comes out exactly where the
    /// set of monitors is not what it was.
    pub fn refresh(&mut self, reported: Vec<MonitorData>) -> (r: Option<MonitorEvent>)
        requires
            old(self).wf(),
        ensures
            final(self).wf(),
            r is None <==> same_monitors(monitors_of(reported@), old(self).data@),
            r is None ==> *final(self) == *old(self),
            r matches Some(event) ==> {
                &&& event.wf()
                &&& event.prev@ == old(self).data@
                &&& event.data@ == monitors_of(reported@)
                &&& final(self).data@ == monitors_of(reported@)
            },
    {
        let data = collect_monitors(reported);
        let forth = all_within(&data, &self.data);
        let back = all_within(&self.data, &data);
        if forth && back {
            proof {
                assert(data@.dom() =~= old(self).data@.dom());
            }
            None
        } else {
            proof {
                if same_monitors(data@, old(self).data@) {
                    assert forall|name: Seq<char>| #[trigger]
                        old(self).data@.dom().contains(name) implies old(self).data@[name].equals(
                        data@[name],
                    ) by {
                        assert(data@.dom().contains(name));
                        crate::floats::law_equals_symmetric(
                            data@[name].scale,
                            old(self).data@[name].scale,
                        );
                    }
                }
            }
            let kept = copy_monitors(&data);
            let mut prev = kept;
            std::mem::swap(&mut self.data, &mut prev);
            Some(MonitorEvent { data, prev })
        }
    }
}

/// Taking the removed monitors out of the old set and putting the changed ones
/// in gives the new set: the same names, each with what is said of it now.
pub proof fn law_event_leads_from_old_to_new(
    prev: Map<Seq<char>, MonitorInfo>,
    data: Map<Seq<char>, MonitorInfo>,
)
    ensures
        same_monitors_or_kept(
            prev.remove_keys(removed_names(prev, data)).union_prefer_right(
                data.restrict(changed_names(prev, data)),
            ),
            data,
        ),
        removed_names(prev, data).disjoint(changed_names(prev, data)),
{
    let led = prev.remove_keys(removed_names(prev, data)).union_prefer_right(
        data.restrict(changed_names(prev, data)),
    );
    assert(led.dom() =~= data.dom());
}

/// The same names, and under each the same value or an equal one.
pub open spec fn same_monitors_or_kept(
    a: Map<Seq<char>, MonitorInfo>,
    b: Map<Seq<char>, MonitorInfo>,
) -> bool {
    &&& a.dom() == b.dom()
    &&& forall|name: Seq<char>| #[trigger]
        a.dom().contains(name) ==> a[name] == b[name] || a[name].equals(b[name])
}

/// A look that finds what the last one found reports nothing, provided that
/// every scale is a number.
pub proof fn law_no_event_without_change(reported: Seq<MonitorData>)
    requires
        forall|i: int| 0 <= i < reported.len() ==> !(#[trigger] reported[i]).scale.is_nan(),
    ensures
        same_monitors(monitors_of(reported), monitors_of(reported)),
    decreases reported.len(),
{
    if reported.len() > 0 {
        law_no_event_without_change(reported.drop_last());
    }
}

/// The mode of an output is the first one that is in use, if any is.
pub proof fn law_first_mode_in_use_counts(modes: Seq<MonitorMode>)
    ensures
        current_mode(modes) is None <==> forall|i: int|
            0 <= i < modes.len() ==> !(#[trigger] modes[i]).current,
        current_mode(modes) matches Some(mode) ==> exists|i: int|
            0 <= i < modes.len() && mode == #[trigger] modes[i] && mode.current && forall|j: int|
                0 <= j < i ==> !(#[trigger] modes[j]).current,
    decreases modes.len(),
{
    if modes.len() > 0 && !modes[0].current {
        let rest = modes.drop_first();
        law_first_mode_in_use_counts(rest);
        assert forall|i: int| 0 < i < modes.len() implies rest[i - 1] == #[trigger] modes[i] by {}
        if current_mode(modes) is Some {
            let mode = current_mode(modes)->0;
            let i = choose|i: int|
                0 <= i < rest.len() && mode == #[trigger] rest[i] && mode.current && forall|j: int|
                    0 <= j < i ==> !(#[trigger] rest[j]).current;
            assert forall|j: int| 0 <= j < i + 1 implies !(#[trigger] modes[j]).current by {
                if j > 0 {
                    assert(rest[j - 1] == modes[j]);
                }
            }
            assert(modes[i + 1] == rest[i]);
        } else {
            assert forall|i: int| 0 <= i < modes.len() implies !(#[trigger] modes[i]).current by {
                if i > 0 {
                    assert(rest[i - 1] == modes[i]);
                }
            }
        }
    } else if modes.len() > 0 {
        assert(modes[0].current);
    }
}

/// An output that is on and has a mode in use is a monitor: with the name and the
/// scale of the output, as wide and as high as the mode. Any other output is none.
pub proof fn law_output_is_a_monitor(data: MonitorData)
    ensures
        data.enabled ==> (current_mode(data.modes@) matches Some(mode) ==> (monitor_of(
            data,
        ) matches Some(info) && info.name == data.name && info.scale == data.scale && info.width
            == mode.width && info.height == mode.height)),
        !data.enabled || current_mode(data.modes@) is None ==> monitor_of(data) is None,
{
}

/// The monitors are those among the outputs, each under its own name; of several
/// with one name the last one counts.
pub proof fn law_monitors_are_found_by_name(data: Seq<MonitorData>, name: Seq<char>)
    ensures
        named_by_key(monitors_of(data)),
        monitors_of(data).dom().contains(name) <==> exists|i: int|
            0 <= i < data.len() && monitor_of(#[trigger] data[i]) is Some && data[i].name@ == name,
        forall|i: int|
            0 <= i < data.len() && monitor_of(#[trigger] data[i]) is Some && data[i].name@ == name
                && (forall|j: int|
                i < j < data.len() && monitor_of(#[trigger] data[j]) is Some ==> data[j].name@
                    != name) ==> monitors_of(data)[name] == monitor_of(data[i])->0,
    decreases data.len(),
{
    if data.len() > 0 {
        let front = data.drop_last();
        let last = data.last();
        law_monitors_are_found_by_name(front, name);
        assert(data[data.len() - 1] == last);
        assert forall|other: Seq<char>| #[trigger]
            monitors_of(data).dom().contains(other) implies monitors_of(data)[other].name@
            == other by {
            if monitors_of(front).dom().contains(other) {
                assert(monitors_of(front)[other].name@ == other);
            }
        }
        if exists|i: int|
            0 <= i < front.len() && monitor_of(#[trigger] front[i]) is Some && front[i].name@
                == name {
            let i = choose|i: int|
                0 <= i < front.len() && monitor_of(#[trigger] front[i]) is Some && front[i].name@
                    == name;
            assert(data[i] == front[i]);
        }
        if exists|i: int|
            0 <= i < data.len() && monitor_of(#[trigger] data[i]) is Some && data[i].name@ == name {
            let i = choose|i: int|
                0 <= i < data.len() && monitor_of(#[trigger] data[i]) is Some && data[i].name@
                    == name;
            if i < front.len() {
                assert(front[i] == data[i]);
            }
        }
        assert forall|i: int|
            0 <= i < data.len() && monitor_of(#[trigger] data[i]) is Some && data[i].name@ == name
                && (forall|j: int|
                i < j < data.len() && monitor_of(#[trigger] data[j]) is Some ==> data[j].name@
                    != name) implies monitors_of(data)[name] == monitor_of(data[i])->0 by {
            if i < front.len() {
                assert(front[i] == data[i]);
                assert forall|j: int|
                    i < j < front.len() && monitor_of(
                        #[trigger] front[j],
                    ) is Some implies front[j].name@ != name by {
                    assert(data[j] == front[j]);
                }
                assert(monitor_of(last) is Some ==> last.name@ != name);
            }
        }
    }
}

/// A monitor is gone if it was there and is not any more. It has changed if it is
/// new, or not as wide, as high or as large in scale as it was.
pub proof fn law_changes_are_named(
    prev: Map<Seq<char>, MonitorInfo>,
    data: Map<Seq<char>, MonitorInfo>,
    name: Seq<char>,
)
    requires
        named_by_key(prev),
        named_by_key(data),
    ensures
        removed_names(prev, data).contains(name) <==> prev.dom().contains(name)
            && !data.dom().contains(name),
        data.dom().contains(name) && !prev.dom().contains(name) ==> changed_names(
            prev,
            data,
        ).contains(name),
        data.dom().contains(name) && prev.dom().contains(name) ==> (changed_names(
            prev,
            data,
        ).contains(name) <==> prev[name].width != data[name].width || prev[name].height
            != data[name].height || !prev[name].scale.equals(data[name].scale)),
        !data.dom().contains(name) ==> !changed_names(prev, data).contains(name),
{
}

/// A list of the names of a set holds these names and no others, none twice; so does a
/// list of monitors, and it says of each what is known of it.
pub proof fn law_lists_hold_what_they_list(
    list: Seq<String>,
    infos: Seq<MonitorInfo>,
    names: Set<Seq<char>>,
    data: Map<Seq<char>, MonitorInfo>,
)
    ensures
        lists_names(list, names) ==> texts(list).to_set() == names && texts(list).no_duplicates(),
        lists_monitors(infos, names, data) ==> info_names(infos).to_set() == names && info_names(
            infos,
        ).no_duplicates() && forall|i: int|
            0 <= i < infos.len() ==> (#[trigger] infos[i]) == data[infos[i].name@],
{
    if lists_names(list, names) {
        assert forall|name: Seq<char>| #[trigger] texts(list).to_set().contains(
            name,
        ) == names.contains(name) by {
            if names.contains(name) {
                let i = choose|i: int| 0 <= i < list.len() && (#[trigger] list[i])@ == name;
                assert(texts(list)[i] == name);
            }
            if texts(list).contains(name) {
                let i = texts(list).index_of(name);
                assert(names.contains(list[i]@));
            }
        }
        assert(texts(list).to_set() =~= names);
        assert forall|i: int, j: int|
            0 <= i < texts(list).len() && 0 <= j < texts(list).len() && i != j implies texts(
            list,
        )[i] != texts(list)[j] by {
            assert(list[i]@ != list[j]@);
        }
    }
    if lists_monitors(infos, names, data) {
        let all = info_names(infos);
        assert forall|name: Seq<char>| #[trigger] all.to_set().contains(name) == names.contains(
            name,
        ) by {
            if names.contains(name) {
                let i = choose|i: int| 0 <= i < infos.len() && (#[trigger] infos[i]).name@ == name;
                assert(all[i] == name);
            }
            if all.contains(name) {
                let i = all.index_of(name);
                assert(names.contains(infos[i].name@));
            }
        }
        assert(all.to_set() =~= names);
        assert forall|i: int, j: int|
            0 <= i < all.len() && 0 <= j < all.len() && i != j implies all[i] != all[j] by {
            assert(infos[i].name@ != infos[j].name@);
        }
    }
}

} // verus!
