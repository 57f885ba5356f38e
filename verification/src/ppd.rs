//! Power profiles: which one is active, and going on to the next.
use vstd::prelude::*;
use vstd::std_specs::convert::FromSpec;
use crate::assoc::Assoc;
use crate::strs::is_text;
use crate::tui::{
    interactive_view, plain_view, CustomId, Elem, ElemView, InteractKind, MouseButton,
};
use crate::xtui::text::{
    is_intro, law_colors_are_set_for_their_layers, outro, sized, width_sum, HorizontalAlign,
    Subscale, TextOpts,
};

verus! {

/// A power profile, and what takes care of it.
#[derive(Debug)]
pub struct Profile {
    pub profile: String,
    pub driver: String,
    pub platform_driver: Option<String>,
    pub cpu_driver: Option<String>,
}

/// The place of the first profile with that name.
pub open spec fn profile_place(profiles: Seq<Profile>, name: Seq<char>) -> Option<int>
    decreases profiles.len(),
{
    if profiles.len() == 0 {
        None
    } else {
        match profile_place(profiles.drop_last(), name) {
            Some(i) => Some(i),
            None => if profiles.last().profile@ == name {
                Some(profiles.len() - 1)
            } else {
                None
            },
        }
    }
}

/// The place of the profile that comes `steps` after the active one. An active
/// profile that is not in the list leads to the first.
pub open spec fn next_place(profiles: Seq<Profile>, cur: Seq<char>, steps: int) -> int {
    match profile_place(profiles, cur) {
        Some(i) => (i + steps) % (profiles.len() as int),
        None => 0,
    }
}

/// The place of the profile to switch to, unless there is none.
pub fn next_profile(profiles: &Vec<Profile>, cur: &String, steps: usize) -> (r: Option<usize>)
    requires
        profiles@.len() + steps <= usize::MAX,
    ensures
        r is None <==> profiles@.len() == 0,
        r matches Some(i) ==> i < profiles@.len() && i == next_place(profiles@, cur@, steps as int),
{
    if profiles.len() == 0 {
        return None;
    }
    let mut found: Option<usize> = None;
    let mut i: usize = 0;
    proof {
        assert(profiles@.take(0) =~= Seq::empty());
    }
    while i < profiles.len()
        invariant
            0 <= i <= profiles@.len(),
            found is None <==> profile_place(profiles@.take(i as int), cur@) is None,
            found matches Some(j) ==> j < i && profile_place(profiles@.take(i as int), cur@) == Some(
                j as int,
            ),
        decreases profiles@.len() - i,
    {
        proof {
            assert(profiles@.take(i + 1).drop_last() =~= profiles@.take(i as int));
            assert(profiles@.take(i + 1).last() == profiles@[i as int]);
        }
        if found.is_none() && profiles[i].profile == *cur {
            found = Some(i);
        }
        i += 1;
    }
    proof {
        assert(profiles@.take(i as int) =~= profiles@);
    }
    match found {
        Some(j) => Some((j + steps) % profiles.len()),
        None => Some(0),
    }
}

/// The profiles have different names.
pub open spec fn names_differ(profiles: Seq<Profile>) -> bool {
    forall|i: int, j: int|
        0 <= i < j < profiles.len() ==> (#[trigger] profiles[i]).profile@ != (
        #[trigger] profiles[j]).profile@
}

proof fn lemma_place(profiles: Seq<Profile>, i: int)
    requires
        names_differ(profiles),
        0 <= i < profiles.len(),
    ensures
        profile_place(profiles, profiles[i].profile@) == Some(i),
    decreases profiles.len(),
{
    let name = profiles[i].profile@;
    let front = profiles.drop_last();
    if i < profiles.len() - 1 {
        assert(front[i] == profiles[i]);
        lemma_place(front, i);
    } else {
        lemma_not_found(front, name);
    }
}

proof fn lemma_not_found(profiles: Seq<Profile>, name: Seq<char>)
    requires
        forall|i: int| 0 <= i < profiles.len() ==> (#[trigger] profiles[i]).profile@ != name,
    ensures
        profile_place(profiles, name) is None,
    decreases profiles.len(),
{
    if profiles.len() > 0 {
        lemma_not_found(profiles.drop_last(), name);
    }
}

/// Going on by some steps and then by some more is going on by all of them at
/// once.
pub proof fn law_steps_add_up(profiles: Seq<Profile>, i: int, first: int, second: int)
    requires
        names_differ(profiles),
        0 <= i < profiles.len(),
        first >= 0,
        second >= 0,
    ensures
        ({
            let middle = next_place(profiles, profiles[i].profile@, first);
            &&& 0 <= middle < profiles.len()
            &&& next_place(profiles, profiles[middle].profile@, second) == next_place(
                profiles,
                profiles[i].profile@,
                first + second,
            )
        }),
{
    let n = profiles.len() as int;
    lemma_place(profiles, i);
    let middle = (i + first) % n;
    vstd::arithmetic::div_mod::lemma_mod_bound(i + first, n);
    lemma_place(profiles, middle);
    vstd::arithmetic::div_mod::lemma_add_mod_noop(i + first, second, n);
    vstd::arithmetic::div_mod::lemma_add_mod_noop((i + first) % n, second, n);
    vstd::arithmetic::div_mod::lemma_mod_twice(i + first, n);
    assert((middle + second) % n == (i + first + second) % n);
}

/// As many steps as there are profiles lead back to the active one.
pub proof fn law_full_round(profiles: Seq<Profile>, i: int)
    requires
        names_differ(profiles),
        0 <= i < profiles.len(),
    ensures
        next_place(profiles, profiles[i].profile@, profiles.len() as int) == i,
{
    let n = profiles.len() as int;
    lemma_place(profiles, i);
    vstd::arithmetic::div_mod::lemma_mod_add_multiples_vanish(i, n);
    vstd::arithmetic::div_mod::lemma_small_mod(i as nat, n as nat);
}

/// The place of a profile is the first one where a profile has that name, if any
/// has.
pub proof fn law_place_is_the_first(profiles: Seq<Profile>, name: Seq<char>)
    ensures
        profile_place(profiles, name) is None <==> forall|i: int|
            0 <= i < profiles.len() ==> (#[trigger] profiles[i]).profile@ != name,
        profile_place(profiles, name) matches Some(place) ==> {
            &&& 0 <= place < profiles.len()
            &&& profiles[place].profile@ == name
            &&& forall|i: int| 0 <= i < place ==> (#[trigger] profiles[i]).profile@ != name
        },
    decreases profiles.len(),
{
    if profiles.len() > 0 {
        let front = profiles.drop_last();
        law_place_is_the_first(front, name);
        assert forall|i: int| 0 <= i < front.len() implies front[i] == #[trigger] profiles[i] by {}
        if profile_place(profiles, name) is Some {
            let place = profile_place(profiles, name)->0;
            if place < front.len() {
                assert(front[place] == profiles[place]);
            } else {
                assert(profile_place(front, name) is None);
                assert forall|i: int| 0 <= i < place implies (#[trigger] profiles[i]).profile@
                    != name by {
                    assert(front[i] == profiles[i]);
                }
            }
        } else {
            assert forall|i: int| 0 <= i < profiles.len() implies (#[trigger] profiles[i]).profile@
                != name by {
                if i < front.len() {
                    assert(front[i] == profiles[i]);
                }
            }
        }
    }
}

/// One step leads to the profile behind the active one, from the last to the
/// first; an active profile that is not in the list leads to the first.
pub proof fn law_step_leads_to_the_next(profiles: Seq<Profile>, i: int, other: Seq<char>)
    requires
        names_differ(profiles),
        0 <= i < profiles.len(),
        forall|j: int| 0 <= j < profiles.len() ==> (#[trigger] profiles[j]).profile@ != other,
    ensures
        i + 1 < profiles.len() ==> next_place(profiles, profiles[i].profile@, 1) == i + 1,
        i + 1 == profiles.len() ==> next_place(profiles, profiles[i].profile@, 1) == 0,
        next_place(profiles, profiles[i].profile@, 0) == i,
        forall|steps: int| next_place(profiles, other, steps) == 0,
{
    lemma_place(profiles, i);
    lemma_not_found(profiles, other);
    let n = profiles.len() as int;
    vstd::arithmetic::div_mod::lemma_small_mod(i as nat, n as nat);
    if i + 1 < n {
        vstd::arithmetic::div_mod::lemma_small_mod((i + 1) as nat, n as nat);
    } else {
        vstd::arithmetic::div_mod::lemma_mod_self_0(n);
    }
}

/// The symbol of a profile, if it has one.
pub open spec fn profile_symbol(profile: Seq<char>) -> Option<Seq<char>> {
    if profile == "balanced"@ {
        Some("\u{f24e}"@)
    } else if profile == "performance"@ {
        Some("\u{f0e7}"@)
    } else if profile == "power-saver"@ {
        Some("\u{f06c}"@)
    } else {
        None
    }
}

pub fn mk_profile_symbol(profile: &String) -> (r: Option<&'static str>)
    ensures
        r is Some <==> profile_symbol(profile@) is Some,
        r matches Some(symbol) ==> profile_symbol(profile@) == Some(symbol@),
{
    if is_text(profile, "balanced") {
        Some("\u{f24e}")
    } else if is_text(profile, "performance") {
        Some("\u{f0e7}")
    } else if is_text(profile, "power-saver") {
        Some("\u{f06c}")
    } else {
        None
    }
}

/// What the tooltip says of the active profile.
pub open spec fn profile_text(profile: Option<String>) -> Seq<char> {
    match profile {
        Some(profile) => profile@,
        None => "No profile"@,
    }
}

pub fn mk_profile_text(profile: &Option<String>) -> (r: String)
    ensures
        r@ == profile_text(*profile),
{
    match profile {
        Some(profile) => profile.clone(),
        None => "No profile".to_owned(),
    }
}

/// The three profiles that there are have symbols, each its own, and nothing else
/// has one.
pub proof fn law_profiles_have_their_own_symbols(a: Seq<char>, b: Seq<char>)
    ensures
        profile_symbol("balanced"@) == Some("\u{f24e}"@),
        profile_symbol("performance"@) == Some("\u{f0e7}"@),
        profile_symbol("power-saver"@) == Some("\u{f06c}"@),
        profile_symbol(a) is Some ==> a == "balanced"@ || a == "performance"@ || a
            == "power-saver"@,
        profile_symbol(a) is Some && profile_symbol(a) == profile_symbol(b) ==> a == b,
{
    reveal_strlit("balanced");
    reveal_strlit("performance");
    reveal_strlit("power-saver");
    reveal_strlit("\u{f24e}");
    reveal_strlit("\u{f0e7}");
    reveal_strlit("\u{f06c}");
    assert("balanced"@[0] == 'b');
    assert("performance"@[1] == 'e' && "power-saver"@[1] == 'o');
    assert("\u{f24e}"@[0] == '\u{f24e}' && "\u{f0e7}"@[0] == '\u{f0e7}' && "\u{f06c}"@[0]
        == '\u{f06c}');
}

/// The tooltip names the active profile, or says that there is none.
pub proof fn law_tooltip_names_the_profile(profile: String)
    ensures
        profile_text(Some(profile)) == profile@,
        profile_text(None) == "No profile"@,
{
}

/// The options with which the symbol of a profile is drawn: in the middle.
pub open spec fn symbol_opts() -> TextOpts {
    TextOpts {
        subscale: Some(Subscale { horizontal: HorizontalAlign::Center, ..Subscale::whole() }),
        ..TextOpts::usual()
    }
}

/// The module for power profiles in the bar: whether it is hidden.
#[derive(Debug)]
pub struct PpdModule {
    pub hidden: bool,
}

/// What the module does to its place in the bar.
#[derive(Debug)]
pub enum PpdAct {
    /// It goes on to show what it shows, or nothing.
    Keep,
    Hide,
    Show(Elem),
}

/// Whether an element is a symbol of two cells that reacts to the mouse.
pub open spec fn is_symbol_elem(elem: ElemView, symbol: Seq<char>, tag: Seq<u8>) -> bool {
    exists|intro: Seq<char>| #[trigger]
        is_intro(intro, symbol_opts()) && elem == interactive_view(
            crate::tui::min_size_view(
                ElemView::RawPrint {
                    text: intro + sized(symbol_opts(), symbol, Some(2)) + outro(symbol_opts()),
                },
                crate::tui::Size { width: width_sum(0, 2), height: 1 },
            ),
            tag,
        )
}

impl PpdModule {
    /// Whether the module has gone over to what it is for a profile, by this act.
    pub open spec fn shows_profile(
        before: PpdModule,
        profile: Option<String>,
        tag: Seq<u8>,
        after: PpdModule,
        act: PpdAct,
    ) -> bool {
        let symbol = match profile {
            Some(profile) => profile_symbol(profile@),
            None => None,
        };
        match symbol {
            Some(symbol) => {
                &&& !after.hidden
                &&& act matches PpdAct::Show(elem) && is_symbol_elem(elem@, symbol, tag)
            },
            None => {
                &&& after.hidden
                &&& act == (if before.hidden {
                    PpdAct::Keep
                } else {
                    PpdAct::Hide
                })
            },
        }
    }

    /// Takes in the active profile. One without a symbol hides the module,
    /// which is said once only.
    pub fn step(&mut self, profile: &Option<String>, tag: &CustomId) -> (r: PpdAct)
        ensures
            PpdModule::shows_profile(*old(self), *profile, tag@, *final(self), r),
    {
        let symbol = match profile {
            Some(profile) => mk_profile_symbol(profile),
            None => None,
        };
        match symbol {
            Some(symbol) => {
                self.hidden = false;
                let opts = TextOpts::from(HorizontalAlign::Center);
                let elem = opts.render_cell(symbol, 2);
                PpdAct::Show(elem.interactive(tag.clone()))
            },
            None => {
                let was_hidden = self.hidden;
                self.hidden = true;
                if was_hidden {
                    PpdAct::Keep
                } else {
                    PpdAct::Hide
                }
            },
        }
    }
}

/// A profile with a symbol is shown by that symbol, under the tag of the module and
/// two cells wide, every time. One without a symbol, or none at all, hides the module,
/// and that is said only where it was not hidden before.
pub proof fn law_module_shows_the_profile(
    before: PpdModule,
    profile: Option<String>,
    tag: Seq<u8>,
    after: PpdModule,
    act: PpdAct,
)
    requires
        PpdModule::shows_profile(before, profile, tag, after, act),
    ensures
        profile matches Some(name) ==> (profile_symbol(name@) matches Some(symbol) ==> {
            &&& !after.hidden
            &&& act matches PpdAct::Show(elem) && (elem@ matches ElemView::Interactive {
                inner,
                tag: own,
                ..
            } && own == tag && (*inner matches ElemView::MinSize { inner: drawn, size }
                && size.width == 2 && size.height == 1 && *drawn == (ElemView::RawPrint {
                text: sized(TextOpts::from_spec(HorizontalAlign::Center), symbol, Some(2)),
            })))
        }),
        (profile is None || profile_symbol((profile->0)@) is None) ==> {
            &&& after.hidden
            &&& !before.hidden ==> act is Hide
            &&& before.hidden ==> act is Keep
        },
{
    if let Some(name) = profile {
        if let Some(symbol) = profile_symbol(name@) {
            let elem = act->Show_0;
            let intro = choose|intro: Seq<char>| #[trigger]
                is_intro(intro, symbol_opts()) && elem@ == interactive_view(
                    crate::tui::min_size_view(
                        ElemView::RawPrint {
                            text: intro + sized(symbol_opts(), symbol, Some(2)) + outro(
                                symbol_opts(),
                            ),
                        },
                        crate::tui::Size { width: width_sum(0, 2), height: 1 },
                    ),
                    tag,
                );
            law_colors_are_set_for_their_layers(intro, symbol_opts());
            let drawn = sized(symbol_opts(), symbol, Some(2));
            assert(intro + drawn + outro(symbol_opts()) =~= drawn);
        }
    }
}

/// Only a click with the left button goes on to the next profile.
pub fn cycles_profile(kind: InteractKind) -> (r: bool)
    ensures
        r == (kind == InteractKind::Click(MouseButton::Left)),
{
    kind == InteractKind::Click(MouseButton::Left)
}

/// The icons of profiles, and the one for all others.
#[derive(Debug)]
pub struct PpdConfig {
    pub icons: Assoc<Elem>,
    pub fallback_icon: Option<Elem>,
}

impl Default for PpdConfig {
    fn default() -> (r: Self)
        ensures
            r.icons.wf(),
            r.icons@ == Map::<Seq<char>, Elem>::empty(),
            r.fallback_icon is None,
    {
        PpdConfig { icons: Assoc::new(), fallback_icon: None }
    }
}

impl PpdConfig {
    /// The icon of a profile.
    pub open spec fn icon_of(self, profile: Option<String>) -> Option<Elem> {
        match profile {
            Some(profile) if self.icons@.dom().contains(profile@) => Some(
                self.icons@[profile@],
            ),
            _ => self.fallback_icon,
        }
    }

    /// The element for the active profile. Without an icon there is none.
    pub fn render(&self, profile: &Option<String>, tag: CustomId) -> (r: Option<Elem>)
        requires
            self.icons.wf(),
        ensures
            r is Some <==> self.icon_of(*profile) is Some,
            r matches Some(elem) ==> elem@ == interactive_view(
                (self.icon_of(*profile)->0)@,
                tag@,
            ),
    {
        let own = match profile {
            Some(profile) => self.icons.get(profile),
            None => None,
        };
        match own {
            Some(icon) => Some(icon.clone().interactive(tag)),
            None => match &self.fallback_icon {
                Some(icon) => Some(icon.clone().interactive(tag)),
                None => None,
            },
        }
    }
}

/// A profile is shown by its own icon where it has one; every other, and none at
/// all, by the icon for all others.
pub proof fn law_profile_has_its_own_icon(config: PpdConfig, profile: String)
    ensures
        config.icons@.dom().contains(profile@) ==> config.icon_of(Some(profile)) == Some(
            config.icons@[profile@],
        ),
        !config.icons@.dom().contains(profile@) ==> config.icon_of(Some(profile))
            == config.fallback_icon,
        config.icon_of(None) == config.fallback_icon,
{
}

/// What follows when the user does something with the module.
#[derive(Debug)]
pub enum PpdInteract {
    Cycle,
    /// A tooltip with this content opens.
    OpenTooltip(Elem),
    HideModule,
}

/// Whether something is the answer to what the user does with the module.
pub open spec fn answers(r: PpdInteract, profile: Option<String>, kind: InteractKind) -> bool {
    match profile {
        None => r is HideModule,
        Some(profile) => if kind == InteractKind::Click(MouseButton::Left) {
            r is Cycle
        } else {
            r matches PpdInteract::OpenTooltip(tui) && tui@ == plain_view(profile@)
        },
    }
}

/// The left button goes on to the next profile, anything else opens a tooltip with the
/// name of the active one, and without a profile the module is hidden, whatever is
/// done with it.
pub proof fn law_module_answers(r: PpdInteract, profile: String, kind: InteractKind)
    ensures
        answers(r, Some(profile), InteractKind::Click(MouseButton::Left)) ==> r is Cycle,
        kind != InteractKind::Click(MouseButton::Left) && answers(r, Some(profile), kind) ==> (
        r matches PpdInteract::OpenTooltip(tui) && tui@ == plain_view(profile@)),
        answers(r, None, kind) ==> r is HideModule,
{
}

/// A click with the left button goes on to the next profile; anything else
/// shows its name. Without a profile the module is hidden.
pub fn on_interact(profile: &Option<String>, kind: InteractKind) -> (r: PpdInteract)
    ensures
        answers(r, *profile, kind),
{
    match profile {
        Some(profile) => {
            if kind == InteractKind::Click(MouseButton::Left) {
                PpdInteract::Cycle
            } else {
                PpdInteract::OpenTooltip(Elem::plain(profile))
            }
        },
        None => PpdInteract::HideModule,
    }
}

} // verus!
