//! What the daemon makes of the globals that the compositor has announced at the start.

use vstd::prelude::*;
use vstd::string::*;
use crate::objects::{bound_as, str_eq, Objects, WaylandObject};

verus! {

/// A global that the compositor has announced.
pub struct Global {
    pub name: u32,
    pub interface: String,
    pub version: u32,
}

/// Holds of the globals that are outputs.
pub open spec fn is_output() -> spec_fn(Global) -> bool {
    |g: Global| g.interface@ == "wl_output"@
}

/// The registry names of those of `globals` that are outputs, in order.
pub open spec fn spec_output_names(globals: Seq<Global>) -> Seq<u32> {
    globals.filter(is_output()).map_values(|g: Global| g.name)
}

/// The registry names of those of `globals` that are outputs, in order.
pub fn output_names(globals: &Vec<Global>) -> (r: Vec<u32>)
    ensures
        r@ == spec_output_names(globals@),
        r@ == globals@.filter(is_output()).map_values(|g: Global| g.name),
{
    let ghost name = |g: Global| g.name;
    let mut r: Vec<u32> = Vec::new();
    let mut i: usize = 0;
    proof {
        reveal(Seq::filter);
        assert(globals@.take(0).filter(is_output()).map_values(name) =~= Seq::<u32>::empty());
    }
    while i < globals.len()
        invariant
            i <= globals.len(),
            name == (|g: Global| g.name),
            r@ == globals@.take(i as int).filter(is_output()).map_values(name),
        decreases globals.len() - i,
    {
        proof {
            let seen = globals@.take(i as int);
            let g = globals@[i as int];
            seen.lemma_filter_push(g, is_output());
            assert(seen.push(g) =~= globals@.take(i + 1));
            assert(seen.filter(is_output()).push(g).map_values(name) =~= seen.filter(
                is_output(),
            ).map_values(name).push(g.name));
        }
        if str_eq(globals[i].interface.as_str(), "wl_output") {
            r.push(globals[i].name);
        }
        i += 1;
    }
    proof {
        assert(globals@.take(i as int) =~= globals@);
    }
    r
}

/// A global to bind, by its position among the globals, and the id it is bound to.
#[derive(Clone, Copy, Debug, PartialEq, Eq, Structural)]
pub struct Binding {
    pub global: usize,
    pub id: u32,
}

/// The interfaces of globals, in order.
pub open spec fn interfaces(globals: Seq<Global>) -> Seq<Seq<char>> {
    globals.map_values(|g: Global| g.interface@)
}

/// The lowest id that is free in `s`, or the one past the highest.
pub open spec fn next_free_id(s: Seq<Option<WaylandObject>>) -> int {
    1 + choose|i: int| crate::objects::is_first_free(s, i)
}

/// The objects of `s` and those made for the globals the daemon works with, one after the other;
/// and which global has got which id.
pub open spec fn bound(
    s: Seq<Option<WaylandObject>>,
    interfaces: Seq<Seq<char>>,
) -> (Seq<Option<WaylandObject>>, Seq<(int, int)>)
    decreases interfaces.len(),
{
    if interfaces.len() == 0 {
        (s, Seq::empty())
    } else {
        let (t, bindings) = bound(s, interfaces.drop_last());
        match crate::objects::spec_bound_as(interfaces.last()) {
            Some(object) => (
                crate::objects::spec_create(t, next_free_id(t) as u32, object),
                bindings.push((interfaces.len() - 1, next_free_id(t))),
            ),
            None => (t, bindings),
        }
    }
}

/// There is exactly one lowest free position.
pub proof fn lemma_next_free_id(s: Seq<Option<WaylandObject>>, i: int)
    requires
        crate::objects::is_first_free(s, i),
    ensures
        next_free_id(s) == i + 1,
{
    let k = choose|k: int| crate::objects::is_first_free(s, k);
    if k < i {
        assert(s[k] is Some);
    } else if i < k {
        assert(s[i] is Some);
    }
}

/// There is a lowest free position.
pub proof fn lemma_some_id_is_free(s: Seq<Option<WaylandObject>>)
    ensures
        crate::objects::is_first_free(s, next_free_id(s) - 1),
    decreases s.len(),
{
    if s.len() == 0 {
        assert(crate::objects::is_first_free(s, 0));
    } else {
        let rest = s.drop_last();
        lemma_some_id_is_free(rest);
        let i = next_free_id(rest) - 1;
        assert forall|j: int| 0 <= j < i implies (#[trigger] s[j]) is Some by {
            assert(rest[j] is Some);
        }
        if i < rest.len() {
            assert(s[i] == rest[i]);
            assert(crate::objects::is_first_free(s, i));
        } else if s.last() is Some {
            assert(crate::objects::is_first_free(s, s.len() as int));
        } else {
            assert(crate::objects::is_first_free(s, i));
        }
    }
}

/// Registers an object for each of `globals` that the daemon works with, and returns what to bind.
pub fn bind_globals(objects: &mut Objects, globals: &Vec<Global>) -> (r: Vec<Binding>)
    requires
        old(objects).wf(),
        old(objects)@.len() + globals@.len() < u32::MAX,
    ensures
        final(objects).wf(),
        final(objects)@ == bound(old(objects)@, interfaces(globals@)).0,
        r@.map_values(|b: Binding| (b.global as int, b.id as int)) == bound(
            old(objects)@,
            interfaces(globals@),
        ).1,
{
    let ghost all = interfaces(globals@);
    let ghost pair = |b: Binding| (b.global as int, b.id as int);
    let mut r: Vec<Binding> = Vec::new();
    let mut i: usize = 0;
    proof {
        assert(r@.map_values(pair) =~= Seq::<(int, int)>::empty());
    }
    while i < globals.len()
        invariant
            i <= globals.len(),
            all == interfaces(globals@),
            pair == (|b: Binding| (b.global as int, b.id as int)),
            old(objects)@.len() + globals@.len() < u32::MAX,
            objects.wf(),
            objects@.len() <= old(objects)@.len() + i,
            objects@ == bound(old(objects)@, all.take(i as int)).0,
            r@.map_values(pair) == bound(old(objects)@, all.take(i as int)).1,
        decreases globals.len() - i,
    {
        let ghost before = objects@;
        let ghost bindings = r@;
        proof {
            assert(all.take(i + 1).drop_last() =~= all.take(i as int));
        }
        match bound_as(globals[i].interface.as_str()) {
            Some(object) => {
                let id = objects.create(object);
                r.push(Binding { global: i, id });
                proof {
                    lemma_next_free_id(before, id - 1);
                    assert(r@.map_values(pair) =~= bindings.map_values(pair).push(
                        (i as int, id as int),
                    ));
                }
            },
            None => {},
        }
        i += 1;
    }
    proof {
        assert(all.take(i as int) =~= all);
    }
    r
}

/// At the start only the display, the registry and the callback of the first roundtrip are known,
/// and the callback may be gone already. Once a global is bound every id up to the highest is in
/// use.
pub proof fn law_binding_closes_the_gap(
    callback: Option<WaylandObject>,
    interfaces: Seq<Seq<char>>,
)
    requires
        interfaces.len() < u32::MAX - 3,
    ensures
        ({
            let start = seq![
                Some(WaylandObject::Display),
                Some(WaylandObject::Registry),
                callback,
            ];
            let (s, bindings) = bound(start, interfaces);
            &&& bindings.len() > 0 ==> crate::objects::gapless(s)
            &&& bindings.len() == 0 ==> s == start
            &&& s.len() <= 3 + interfaces.len()
        }),
    decreases interfaces.len(),
{
    let start = seq![Some(WaylandObject::Display), Some(WaylandObject::Registry), callback];
    if interfaces.len() > 0 {
        law_binding_closes_the_gap(callback, interfaces.drop_last());
        let (t, bindings) = bound(start, interfaces.drop_last());
        match crate::objects::spec_bound_as(interfaces.last()) {
            Some(object) => {
                lemma_some_id_is_free(t);
                let id = next_free_id(t) as u32;
                if bindings.len() > 0 {
                    crate::objects::law_new_ids_follow_the_highest(t, id, object);
                } else {
                    assert(t[0] is Some);
                    assert(t[1] is Some);
                    if callback is None {
                        assert(t[2] is None);
                        if id - 1 > 2 {
                            assert(t[2] is Some);
                        }
                    } else {
                        assert(t[2] is Some);
                    }
                    assert(crate::objects::gapless(crate::objects::spec_create(t, id, object)));
                }
            },
            None => {},
        }
    }
}

/// So a daemon that is made once its globals are bound finds each of them under its own id.
pub proof fn law_bound_globals_are_found(
    callback: Option<WaylandObject>,
    interfaces: Seq<Seq<char>>,
    object: WaylandObject,
    id: u32,
)
    requires
        interfaces.len() < u32::MAX - 3,
        bound(
            seq![Some(WaylandObject::Display), Some(WaylandObject::Registry), callback],
            interfaces,
        ).1.len() > 0,
        crate::objects::is_first_of(
            crate::objects::alive(
                bound(
                    seq![Some(WaylandObject::Display), Some(WaylandObject::Registry), callback],
                    interfaces,
                ).0,
            ),
            object,
            Some(id),
        ),
    ensures
        crate::objects::lookup(
            bound(
                seq![Some(WaylandObject::Display), Some(WaylandObject::Registry), callback],
                interfaces,
            ).0,
            id,
        ) == Some(object),
{
    law_binding_closes_the_gap(callback, interfaces);
    crate::objects::law_first_of_a_kind_is_its_id(
        bound(
            seq![Some(WaylandObject::Display), Some(WaylandObject::Registry), callback],
            interfaces,
        ).0,
        object,
        id,
    );
}

/// Every global the daemon works with is bound: an object for it is alive, and what was registered
/// before still is. So where the compositor has announced the globals that a daemon cannot do
/// without, one can be made.
pub proof fn law_every_global_is_bound(
    s: Seq<Option<WaylandObject>>,
    interfaces: Seq<Seq<char>>,
    object: WaylandObject,
)
    requires
        s.len() + interfaces.len() < u32::MAX,
        s.contains(Some(object)) || exists|k: int|
            0 <= k < interfaces.len() && crate::objects::spec_bound_as(#[trigger] interfaces[k])
                == Some(object),
    ensures
        crate::objects::alive(bound(s, interfaces).0).contains(object),
{
    let t = bound(s, interfaces).0;
    lemma_bound_keeps(s, interfaces);
    if s.contains(Some(object)) {
        let i = choose|i: int| 0 <= i < s.len() && s[i] == Some(object);
        assert(s[i] is Some);
        crate::objects::lemma_registered_is_alive(t, i);
    } else {
        let k = choose|k: int|
            0 <= k < interfaces.len() && crate::objects::spec_bound_as(#[trigger] interfaces[k])
                == Some(object);
        lemma_bound_registers(s, interfaces, k);
        let i = choose|i: int| 0 <= i < t.len() && t[i] == Some(object);
        crate::objects::lemma_registered_is_alive(t, i);
    }
}

proof fn lemma_bound_registers(
    s: Seq<Option<WaylandObject>>,
    interfaces: Seq<Seq<char>>,
    k: int,
)
    requires
        s.len() + interfaces.len() < u32::MAX,
        0 <= k < interfaces.len(),
        crate::objects::spec_bound_as(interfaces[k]) is Some,
    ensures
        bound(s, interfaces).0.contains(crate::objects::spec_bound_as(interfaces[k])),
    decreases interfaces.len(),
{
    let rest = interfaces.drop_last();
    let (t, _) = bound(s, rest);
    lemma_bound_keeps(s, rest);
    lemma_some_id_is_free(t);
    let wanted = crate::objects::spec_bound_as(interfaces[k]);
    let id = next_free_id(t) as u32;
    if k < rest.len() {
        assert(rest[k] == interfaces[k]);
        lemma_bound_registers(s, rest, k);
        let j = choose|j: int| 0 <= j < t.len() && t[j] == wanted;
        assert(j != id - 1);
        assert(bound(s, interfaces).0[j] == wanted);
    } else {
        assert(bound(s, interfaces).0[id - 1] == wanted);
    }
}

proof fn lemma_bound_keeps(s: Seq<Option<WaylandObject>>, interfaces: Seq<Seq<char>>)
    requires
        s.len() + interfaces.len() < u32::MAX,
    ensures
        s.len() <= bound(s, interfaces).0.len() <= s.len() + interfaces.len(),
        forall|i: int| 0 <= i < s.len() && (#[trigger] s[i]) is Some ==> bound(s, interfaces).0[i]
            == s[i],
    decreases interfaces.len(),
{
    if interfaces.len() > 0 {
        lemma_bound_keeps(s, interfaces.drop_last());
        lemma_some_id_is_free(bound(s, interfaces.drop_last()).0);
    }
}

/// A global is an output if and only if its interface says so.
pub proof fn law_which_globals_are_outputs(g: Global)
    ensures
        is_output()(g) <==> g.interface@ == "wl_output"@,
{
}

/// Each global has the interface it was announced with.
pub proof fn law_interfaces_are_those_announced(globals: Seq<Global>)
    ensures
        interfaces(globals).len() == globals.len(),
        forall|i: int|
            0 <= i < globals.len() ==> (#[trigger] interfaces(globals)[i]) == globals[i].interface@,
{
}

/// Every global that is to be bound has exactly one binding, and no other global has any. The
/// bindings are in the order of the globals, and under the id of a binding the object for its
/// global is registered.
pub proof fn law_bindings_are_of_their_globals(
    s: Seq<Option<WaylandObject>>,
    interfaces: Seq<Seq<char>>,
)
    requires
        s.len() + interfaces.len() < u32::MAX,
    ensures
        ({
            let (t, bindings) = bound(s, interfaces);
            &&& forall|b: int|
                0 <= b < bindings.len() ==> {
                    let (k, id) = #[trigger] bindings[b];
                    &&& 0 <= k < interfaces.len()
                    &&& crate::objects::spec_bound_as(interfaces[k]) is Some
                    &&& 1 <= id <= t.len()
                    &&& t[id - 1] == crate::objects::spec_bound_as(interfaces[k])
                    &&& id <= s.len() ==> s[id - 1] is None
                }
            &&& forall|b: int, c: int|
                0 <= b < c < bindings.len() ==> (#[trigger] bindings[b]).0 < (
                #[trigger] bindings[c]).0
            &&& forall|k: int|
                0 <= k < interfaces.len() && crate::objects::spec_bound_as(
                    #[trigger] interfaces[k],
                ) is Some ==> exists|b: int|
                    0 <= b < bindings.len() && (#[trigger] bindings[b]).0 == k
        }),
    decreases interfaces.len(),
{
    if interfaces.len() > 0 {
        let rest = interfaces.drop_last();
        let last = interfaces.len() - 1;
        let (t0, bindings0) = bound(s, rest);
        let (t, bindings) = bound(s, interfaces);
        law_bindings_are_of_their_globals(s, rest);
        lemma_bound_keeps(s, rest);
        lemma_some_id_is_free(t0);
        let n = next_free_id(t0);
        assert forall|b: int| 0 <= b < bindings0.len() implies (#[trigger] bindings0[b])
            == bindings[b] && bindings0[b].1 != n by {
            let (k, id) = bindings0[b];
            assert(t0[id - 1] is Some);
        }
        assert forall|b: int| 0 <= b < bindings.len() implies ({
            let (k, id) = #[trigger] bindings[b];
            &&& 0 <= k < interfaces.len()
            &&& crate::objects::spec_bound_as(interfaces[k]) is Some
            &&& 1 <= id <= t.len()
            &&& t[id - 1] == crate::objects::spec_bound_as(interfaces[k])
            &&& id <= s.len() ==> s[id - 1] is None
        }) by {
            if b < bindings0.len() {
                let (k, id) = bindings0[b];
                assert(bindings[b] == bindings0[b]);
                assert(rest[k] == interfaces[k]);
            } else if n <= s.len() && s[n - 1] is Some {
                assert(t0[n - 1] == s[n - 1]);
            }
        }
        assert forall|b: int, c: int| 0 <= b < c < bindings.len() implies (
        #[trigger] bindings[b]).0 < (#[trigger] bindings[c]).0 by {
            assert(bindings[b] == bindings0[b]);
            if c < bindings0.len() {
                assert(bindings[c] == bindings0[c]);
            }
        }
        assert forall|k: int|
            0 <= k < interfaces.len() && crate::objects::spec_bound_as(
                #[trigger] interfaces[k],
            ) is Some implies exists|b: int|
            0 <= b < bindings.len() && (#[trigger] bindings[b]).0 == k by {
            if k < last {
                assert(rest[k] == interfaces[k]);
                let b = choose|b: int| 0 <= b < bindings0.len() && (#[trigger] bindings0[b]).0 == k;
                assert(bindings[b].0 == k);
            } else {
                assert(bindings[bindings0.len() as int].0 == k);
            }
        }
    }
}

/// The outputs among the globals are found one by one: another global adds its name behind all
/// others if its interface is that of an output, and nothing otherwise.
pub proof fn law_outputs_are_found_one_by_one(globals: Seq<Global>, g: Global)
    ensures
        spec_output_names(Seq::empty()) == Seq::<u32>::empty(),
        g.interface@ == "wl_output"@ ==> spec_output_names(globals.push(g)) == spec_output_names(
            globals,
        ).push(g.name),
        g.interface@ != "wl_output"@ ==> spec_output_names(globals.push(g)) == spec_output_names(
            globals,
        ),
{
    reveal(Seq::filter);
    globals.lemma_filter_push(g, is_output());
    assert(spec_output_names(Seq::empty()) =~= Seq::<u32>::empty());
    let found = globals.filter(is_output());
    assert(found.push(g).map_values(|g: Global| g.name) =~= found.map_values(
        |g: Global| g.name,
    ).push(g.name));
}

} // verus!
