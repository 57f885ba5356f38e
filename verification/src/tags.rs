//! Tags by which elements are told apart when the user interacts with them.
use vstd::prelude::*;
use crate::assoc::{has_key, lemma_entry, place_of, Assoc};
use crate::tui::CustomId;

verus! {

/// The `k` lowest bytes of `n`, the lowest first.
pub open spec fn le_bytes(n: nat, k: nat) -> Seq<u8>
    decreases k,
{
    if k == 0 {
        Seq::empty()
    } else {
        seq![(n % 256) as u8] + le_bytes(n / 256, (k - 1) as nat)
    }
}

/// The order in which the bytes of a number are written.
#[derive(Clone, Copy, Debug, PartialEq, Eq, Structural)]
pub enum ByteOrder {
    Big,
    Little,
}

/// The bytes of the tag with number `n`.
pub open spec fn tag_bytes(n: u64, order: ByteOrder) -> Seq<u8> {
    match order {
        ByteOrder::Big => le_bytes(n as nat, 8).reverse(),
        ByteOrder::Little => le_bytes(n as nat, 8),
    }
}

proof fn lemma_le_bytes_len(n: nat, k: nat)
    ensures
        le_bytes(n, k).len() == k,
    decreases k,
{
    if k > 0 {
        lemma_le_bytes_len(n / 256, (k - 1) as nat);
    }
}

/// The number `256^k`.
pub open spec fn bytes_bound(k: nat) -> nat
    decreases k,
{
    if k == 0 {
        1
    } else {
        256 * bytes_bound((k - 1) as nat)
    }
}

proof fn lemma_le_bytes_injective(a: nat, b: nat, k: nat)
    requires
        a < bytes_bound(k),
        b < bytes_bound(k),
        le_bytes(a, k) == le_bytes(b, k),
    ensures
        a == b,
    decreases k,
{
    if k > 0 {
        let j = (k - 1) as nat;
        lemma_le_bytes_len(a / 256, j);
        lemma_le_bytes_len(b / 256, j);
        assert(le_bytes(a, k)[0] == (a % 256) as u8);
        assert(le_bytes(b, k)[0] == (b % 256) as u8);
        assert(le_bytes(a, k).skip(1) =~= le_bytes(a / 256, j));
        assert(le_bytes(b, k).skip(1) =~= le_bytes(b / 256, j));
        lemma_le_bytes_injective(a / 256, b / 256, j);
    }
}

/// Different numbers make different tags.
pub proof fn law_tags_differ(a: u64, b: u64, order: ByteOrder)
    requires
        a != b,
    ensures
        tag_bytes(a, order) != tag_bytes(b, order),
{
    reveal_with_fuel(bytes_bound, 9);
    if tag_bytes(a, order) == tag_bytes(b, order) {
        let x = le_bytes(a as nat, 8);
        let y = le_bytes(b as nat, 8);
        lemma_le_bytes_len(a as nat, 8);
        lemma_le_bytes_len(b as nat, 8);
        if order == ByteOrder::Big {
            assert forall|i: int| 0 <= i < 8 implies x[i] == y[i] by {
                assert(x.reverse()[7 - i] == x[i]);
                assert(y.reverse()[7 - i] == y[i]);
            }
            assert(x =~= y);
        }
        lemma_le_bytes_injective(a as nat, b as nat, 8);
    }
}

/// Every tag has eight bytes.
pub proof fn law_tag_length(n: u64, order: ByteOrder)
    ensures
        tag_bytes(n, order).len() == 8,
{
    lemma_le_bytes_len(n as nat, 8);
}

/// The number that bytes stand for, the first one counting least.
pub open spec fn le_number(bytes: Seq<u8>) -> nat
    decreases bytes.len(),
{
    if bytes.len() == 0 {
        0
    } else {
        bytes[0] as nat + 256 * le_number(bytes.drop_first())
    }
}

proof fn lemma_le_number(n: nat, k: nat)
    requires
        n < bytes_bound(k),
    ensures
        le_number(le_bytes(n, k)) == n,
    decreases k,
{
    if k > 0 {
        let j = (k - 1) as nat;
        lemma_le_bytes_len(n / 256, j);
        assert(le_bytes(n, k).drop_first() =~= le_bytes(n / 256, j));
        lemma_le_number(n / 256, j);
    }
}

/// A tag is its number in bytes, the lowest first or, in the other order, last.
pub proof fn law_tag_stands_for_its_number(n: u64)
    ensures
        le_number(tag_bytes(n, ByteOrder::Little)) == n,
        le_number(tag_bytes(n, ByteOrder::Big).reverse()) == n,
{
    reveal_with_fuel(bytes_bound, 9);
    lemma_le_number(n as nat, 8);
    assert(le_bytes(n as nat, 8).reverse().reverse() =~= le_bytes(n as nat, 8));
}

/// Hands out tags, each once.
#[derive(Debug)]
pub struct TagCounter {
    pub next: u64,
    pub order: ByteOrder,
}

/// The next tag, which no other call gives, as long as the counter does not
/// start over.
pub fn mk_fresh_interact_tag(counter: &mut TagCounter) -> (r: CustomId)
    ensures
        r@ == tag_bytes(old(counter).next, old(counter).order),
        final(counter).order == old(counter).order,
        final(counter).next == (if old(counter).next == u64::MAX {
            0
        } else {
            (old(counter).next + 1) as u64
        }),
{
    let n: u64 = counter.next;
    counter.next = n.wrapping_add(1);
    let mut bytes: Vec<u8> = Vec::new();
    let mut rest: u64 = n;
    let mut i: usize = 0;
    proof {
        lemma_le_bytes_len(n as nat, 8);
        assert(bytes@ + le_bytes(rest as nat, 8) =~= le_bytes(n as nat, 8));
    }
    while i < 8
        invariant
            i <= 8,
            bytes@.len() == i,
            bytes@ + le_bytes(rest as nat, (8 - i) as nat) == le_bytes(n as nat, 8),
        decreases 8 - i,
    {
        let ghost before = bytes@;
        let ghost had = rest as nat;
        bytes.push((rest % 256) as u8);
        rest = rest / 256;
        i += 1;
        proof {
            assert(bytes@ + le_bytes(rest as nat, (8 - i) as nat) =~= before + le_bytes(
                had,
                (8 - i + 1) as nat,
            ));
        }
    }
    proof {
        assert(bytes@ =~= le_bytes(n as nat, 8));
    }
    match counter.order {
        ByteOrder::Little => CustomId::from_bytes(bytes),
        ByteOrder::Big => {
            let mut turned: Vec<u8> = Vec::new();
            let mut k: usize = 8;
            while k > 0
                invariant
                    k <= 8,
                    bytes@.len() == 8,
                    turned@.len() == 8 - k,
                    forall|j: int| 0 <= j < 8 - k ==> turned@[j] == bytes@[7 - j],
                decreases k,
            {
                k -= 1;
                turned.push(bytes[k]);
            }
            proof {
                assert(turned@ =~= bytes@.reverse());
            }
            CustomId::from_bytes(turned)
        },
    }
}

/// Whether the counter has handed out a tag.
pub open spec fn issued(tag: Seq<u8>, counter: TagCounter) -> bool {
    exists|n: u64| n < counter.next && tag == #[trigger] tag_bytes(n, counter.order)
}

/// A tag for each key that has been asked for, with a value.
#[derive(Debug)]
pub struct InteractTagRegistry<V> {
    pub key_to_tag: Assoc<(CustomId, V)>,
    pub tag_to_key: Vec<(CustomId, String)>,
}

/// Whether a registry is another one after a key was asked for: as it was where the key
/// was known, or else with that key, a tag and a value, and nothing else changed.
pub open spec fn asked<V>(
    before: InteractTagRegistry<V>,
    key: Seq<char>,
    after: InteractTagRegistry<V>,
) -> bool {
    if before.key_to_tag@.dom().contains(key) {
        after == before
    } else {
        exists|entry: (CustomId, V)| #[trigger]
            before.key_to_tag@.insert(key, entry) == after.key_to_tag@
    }
}

impl<V> InteractTagRegistry<V> {
    /// The two directions agree, and every tag comes from a number that the
    /// counter has passed.
    pub open spec fn wf(&self, counter: TagCounter) -> bool {
        &&& self.key_to_tag.wf()
        &&& self.tag_to_key@.len() == self.key_to_tag.entries@.len()
        &&& forall|i: int|
            0 <= i < self.tag_to_key@.len() ==> {
                let (tag, key) = #[trigger] self.tag_to_key@[i];
                &&& key@ == self.key_to_tag.entries@[i].0@
                &&& tag@ == self.key_to_tag.entries@[i].1.0@
            }
        &&& forall|i: int|
            0 <= i < self.key_to_tag.entries@.len() ==> issued(
                (#[trigger] self.key_to_tag.entries@[i]).1.0@,
                counter,
            )
        &&& forall|i: int, j: int|
            0 <= i < j < self.key_to_tag.entries@.len() ==> (
            #[trigger] self.key_to_tag.entries@[i]).1.0@ != (
            #[trigger] self.key_to_tag.entries@[j]).1.0@
    }

    pub fn new() -> (r: Self)
        ensures
            forall|counter: TagCounter| r.wf(counter),
            r.key_to_tag@ == Map::<Seq<char>, (CustomId, V)>::empty(),
    {
        InteractTagRegistry { key_to_tag: Assoc::new(), tag_to_key: Vec::new() }
    }

    /// The tag of a key, and its place. A key that was not asked for before gets
    /// a fresh tag and the value that `init` makes of it.
    pub fn get_or_init<F: FnOnce(&CustomId) -> V>(
        &mut self,
        counter: &mut TagCounter,
        key: &String,
        init: F,
    ) -> (r: (CustomId, usize))
        requires
            old(self).wf(*old(counter)),
            old(counter).next < u64::MAX,
            forall|tag: &CustomId| #[trigger] init.requires((tag,)),
        ensures
            final(self).wf(*final(counter)),
            final(counter).order == old(counter).order,
            r.1 < final(self).key_to_tag.entries@.len(),
            final(self).key_to_tag.entries@[r.1 as int].0@ == key@,
            final(self).key_to_tag.entries@[r.1 as int].1.0@ == r.0@,
            asked(*old(self), key@, *final(self)),
            old(self).key_to_tag@.dom().contains(key@) ==> {
                &&& *final(self) == *old(self)
                &&& *final(counter) == *old(counter)
                &&& r.0 == old(self).key_to_tag@[key@].0
            },
            !old(self).key_to_tag@.dom().contains(key@) ==> {
                &&& final(counter).next == old(counter).next + 1
                &&& r.0@ == tag_bytes(old(counter).next, old(counter).order)
                &&& r.1 == old(self).key_to_tag.entries@.len()
                &&& exists|tag: CustomId, val: V| #[trigger]
                    init.ensures((&tag,), val) && tag@ == r.0@ && final(self).key_to_tag@ == old(
                        self,
                    ).key_to_tag@.insert(key@, (tag, val))
            },
    {
        let ghost start = *counter;
        match self.key_to_tag.position(key) {
            Some(i) => {
                proof {
                    lemma_entry(self.key_to_tag.entries@, i as int);
                }
                (self.key_to_tag.entries[i].1.0.clone(), i)
            },
            None => {
                let i: usize = self.key_to_tag.entries.len();
                let ghost before = self.key_to_tag.entries@;
                let tag = mk_fresh_interact_tag(counter);
                self.tag_to_key.push((tag.clone(), key.clone()));
                let val = init(&tag);
                self.key_to_tag.insert(key.clone(), (tag.clone(), val));
                proof {
                    let after = self.key_to_tag.entries@;
                    assert forall|k: int| 0 <= k < after.len() implies issued(
                        (#[trigger] after[k]).1.0@,
                        *counter,
                    ) by {
                        if k < before.len() {
                            assert(issued(before[k].1.0@, start));
                            let n = choose|n: u64|
                                n < start.next && before[k].1.0@ == #[trigger] tag_bytes(
                                    n,
                                    start.order,
                                );
                            assert(n < counter.next && after[k].1.0@ == tag_bytes(n, counter.order));
                        } else {
                            assert(after[k].1.0@ == tag_bytes(start.next, counter.order));
                        }
                    }
                    assert forall|k: int, l: int| 0 <= k < l < after.len() implies (
                    #[trigger] after[k]).1.0@ != (#[trigger] after[l]).1.0@ by {
                        if l == before.len() {
                            assert(issued(before[k].1.0@, start));
                            let n = choose|n: u64|
                                n < start.next && before[k].1.0@ == #[trigger] tag_bytes(
                                    n,
                                    start.order,
                                );
                            law_tags_differ(n, start.next, start.order);
                        }
                    }
                    assert(init.ensures((&tag,), val));
                }
                (tag, i)
            },
        }
    }
}

/// A registry stays as it is while others take tags from the same counter.
pub proof fn law_registry_outlives_other_tags<V>(
    registry: InteractTagRegistry<V>,
    counter: TagCounter,
    later: TagCounter,
)
    requires
        registry.wf(counter),
        later.order == counter.order,
        later.next >= counter.next,
    ensures
        registry.wf(later),
{
    let entries = registry.key_to_tag.entries@;
    assert forall|i: int| 0 <= i < entries.len() implies issued(
        (#[trigger] entries[i]).1.0@,
        later,
    ) by {
        assert(issued(entries[i].1.0@, counter));
        let n = choose|n: u64|
            n < counter.next && entries[i].1.0@ == #[trigger] tag_bytes(n, counter.order);
        assert(n < later.next && entries[i].1.0@ == tag_bytes(n, later.order));
    }
}

/// Once a key has been asked for, it keeps its tag and its value, whatever is asked for
/// later, and asking for it again changes nothing.
pub proof fn law_keys_keep_their_tags<V>(
    states: Seq<InteractTagRegistry<V>>,
    keys: Seq<Seq<char>>,
    key: Seq<char>,
    from: int,
    to: int,
)
    requires
        states.len() == keys.len() + 1,
        forall|i: int| 0 <= i < keys.len() ==> asked(#[trigger] states[i], keys[i], states[i + 1]),
        0 <= from <= to < states.len(),
        states[from].key_to_tag@.dom().contains(key),
    ensures
        states[to].key_to_tag@.dom().contains(key),
        states[to].key_to_tag@[key] == states[from].key_to_tag@[key],
        to < keys.len() && keys[to] == key ==> states[to + 1] == states[to],
    decreases to - from,
{
    if from < to {
        law_keys_keep_their_tags(states, keys, key, from, to - 1);
        assert(asked(states[to - 1], keys[to - 1], states[to]));
    }
    if to < keys.len() {
        assert(asked(states[to], keys[to], states[to + 1]));
    }
}

/// The tag of a key leads back to the key, and to no other.
pub proof fn law_tags_lead_back<V>(
    registry: InteractTagRegistry<V>,
    counter: TagCounter,
    key: Seq<char>,
)
    requires
        registry.wf(counter),
        registry.key_to_tag@.dom().contains(key),
    ensures
        exists|i: int|
            0 <= i < registry.tag_to_key@.len() && (#[trigger] registry.tag_to_key@[i]).0@
                == registry.key_to_tag@[key].0@ && registry.tag_to_key@[i].1@ == key,
        forall|i: int|
            0 <= i < registry.tag_to_key@.len() && (#[trigger] registry.tag_to_key@[i]).0@
                == registry.key_to_tag@[key].0@ ==> registry.tag_to_key@[i].1@ == key,
{
    let entries = registry.key_to_tag.entries@;
    let at = place_of(entries, key);
    assert(has_key(entries, key));
    assert(entries[at].0@ == key);
    lemma_entry(entries, at);
    assert(registry.tag_to_key@[at].1@ == key);
    assert forall|i: int|
        0 <= i < registry.tag_to_key@.len() && (#[trigger] registry.tag_to_key@[i]).0@
            == registry.key_to_tag@[key].0@ implies registry.tag_to_key@[i].1@ == key by {
        assert(entries[i].1.0@ == entries[at].1.0@);
        if i < at {
            assert(entries[i].1.0@ != entries[at].1.0@);
        } else if at < i {
            assert(entries[at].1.0@ != entries[i].1.0@);
        }
    }
}

/// Two keys of a registry never share a tag.
pub proof fn law_registry_tags_are_distinct<V>(
    registry: InteractTagRegistry<V>,
    counter: TagCounter,
    a: Seq<char>,
    b: Seq<char>,
)
    requires
        registry.wf(counter),
        registry.key_to_tag@.dom().contains(a),
        registry.key_to_tag@.dom().contains(b),
        a != b,
    ensures
        registry.key_to_tag@[a].0@ != registry.key_to_tag@[b].0@,
{
    let entries = registry.key_to_tag.entries@;
    let i = place_of(entries, a);
    let j = place_of(entries, b);
    assert(has_key(entries, a) && has_key(entries, b));
    assert(entries[i].0@ == a && entries[j].0@ == b);
    if i < j {
        assert(entries[i].1.0@ != entries[j].1.0@);
    } else {
        assert(entries[j].1.0@ != entries[i].1.0@);
    }
}

} // verus!
