//! The registry of open serial ports: a map from port name to the open
//! handle, the single piece of state behind the open / close / lookup
//! commands.
//!
//! The registry is generic in the handle type, so the lifecycle logic is
//! proved once for every kind of handle; the driver-level handle is
//! supplied where the ports are actually opened. A handle is owned by its
//! entry: it enters on `insert` and leaves only on `remove`.

use vstd::prelude::*;

verus! {

/// Does some entry of `s` carry the port name `name`?
pub open spec fn has_name<H>(s: Seq<(String, H)>, name: Seq<char>) -> bool {
    exists|i: int| 0 <= i < s.len() && (#[trigger] s[i]).0@ == name
}

/// The index of the entry carrying `name` (meaningful when the names are
/// unique and `name` occurs).
pub open spec fn index_of<H>(s: Seq<(String, H)>, name: Seq<char>) -> int {
    choose|i: int| 0 <= i < s.len() && (#[trigger] s[i]).0@ == name
}

/// No two entries carry the same port name.
pub open spec fn names_unique<H>(s: Seq<(String, H)>) -> bool {
    forall|i: int, j: int|
        0 <= i < j < s.len() ==> (#[trigger] s[i]).0@ != (#[trigger] s[j]).0@
}

/// The map an entry sequence stands for: each name to its handle.
pub open spec fn map_of<H>(s: Seq<(String, H)>) -> Map<Seq<char>, H> {
    Map::new(|name: Seq<char>| has_name(s, name), |name: Seq<char>| s[index_of(s, name)].1)
}

/// The registry of open ports. Its abstract value (the view) is a map
/// from port name to handle; every operation is specified against that
/// map alone.
pub struct PortRegistry<H> {
    entries: Vec<(String, H)>,
}

impl<H> View for PortRegistry<H> {
    type V = Map<Seq<char>, H>;

    closed spec fn view(&self) -> Map<Seq<char>, H> {
        map_of(self.entries@)
    }
}

impl<H> PortRegistry<H> {
    /// Well-formedness: one entry per port name. Established by `new` and
    /// preserved by every operation.
    pub closed spec fn wf(&self) -> bool {
        names_unique(self.entries@)
    }

    /// An empty registry: no port is open.
    pub fn new() -> (r: Self)
        ensures
            r.wf(),
            r@ == Map::<Seq<char>, H>::empty(),
    {
        let r = PortRegistry { entries: Vec::new() };
        proof {
            assert(r@ =~= Map::<Seq<char>, H>::empty());
        }
        r
    }

    /// Finds the entry carrying `name`, if any.
    fn find_index(&self, name: &str) -> (r: Option<usize>)
        ensures
            match r {
                Some(i) => i < self.entries@.len() && self.entries@[i as int].0@ == name@,
                None => !has_name(self.entries@, name@),
            },
    {
        let n = name.to_owned();
        let end = self.entries.len();
        let mut i: usize = 0;
        while i < end
            invariant
                end == self.entries@.len(),
                i <= end,
                n@ == name@,
                forall|j: int| 0 <= j < i ==> (#[trigger] self.entries@[j]).0@ != name@,
            decreases end - i,
        {
            if self.entries[i].0 == n {
                return Some(i);
            }
            i = i + 1;
        }
        None
    }

    /// Is a port of this name open? Holds exactly of the names in the
    /// registry's map: presence, not device liveness.
    pub fn is_open(&self, name: &str) -> (r: bool)
        requires
            self.wf(),
        ensures
            r == self@.dom().contains(name@),
    {
        let found = self.find_index(name);
        proof {
            if found is Some {
                lemma_unique_index(self.entries@, found->Some_0 as int, name@);
            }
        }
        found.is_some()
    }

    /// Records `handle` as the open handle of port `name`: a new entry if
    /// the name was absent, otherwise the name's handle is replaced.
    pub fn insert(&mut self, name: String, handle: H)
        requires
            old(self).wf(),
        ensures
            final(self).wf(),
            final(self)@ == old(self)@.insert(name@, handle),
    {
        let found = self.find_index(name.as_str());
        match found {
            Some(i) => {
                proof {
                    lemma_map_update(self.entries@, i as int, (name, handle));
                }
                let e = &mut self.entries[i];
                *e = (name, handle);
            },
            None => {
                proof {
                    lemma_map_push(self.entries@, name, handle);
                }
                self.entries.push((name, handle));
            },
        }
    }

    /// Closes the port of this name: its entry leaves the registry and its
    /// handle is handed back. Removing an absent name changes nothing.
    pub fn remove(&mut self, name: &str) -> (r: Option<H>)
        requires
            old(self).wf(),
        ensures
            final(self).wf(),
            final(self)@ == old(self)@.remove(name@),
            match r {
                Some(h) => old(self)@.dom().contains(name@) && h == old(self)@[name@],
                None => !old(self)@.dom().contains(name@),
            },
    {
        let found = self.find_index(name);
        match found {
            Some(i) => {
                proof {
                    lemma_unique_index(self.entries@, i as int, name@);
                    lemma_map_remove(self.entries@, i as int);
                }
                let e = self.entries.remove(i);
                Some(e.1)
            },
            None => {
                proof {
                    assert(!old(self)@.dom().contains(name@));
                    assert(old(self)@ =~= old(self)@.remove(name@));
                }
                None
            },
        }
    }

    /// Borrows the open handle of port `name` for use, for as long as the
    /// borrow lasts; the registry afterwards carries whatever the borrower
    /// made of the handle, under the same name.
    pub fn get_handle(&mut self, name: &str) -> (h: &mut H)
        requires
            old(self).wf(),
            old(self)@.dom().contains(name@),
        ensures
            final(self).wf(),
            *h == old(self)@[name@],
            final(self)@ == old(self)@.insert(name@, *final(h)),
    {
        let found = self.find_index(name);
        match found {
            Some(i) => {
                proof {
                    lemma_unique_index(self.entries@, i as int, name@);
                    lemma_map_update_handles(self.entries@, i as int);
                }
                let e = &mut self.entries[i];
                &mut e.1
            },
            None => vstd::pervasive::unreached(),
        }
    }
}

/// Removing the entry at `i` keeps the names unique and removes exactly
/// its name from the map.
proof fn lemma_map_remove<H>(s: Seq<(String, H)>, i: int)
    requires
        names_unique(s),
        0 <= i < s.len(),
    ensures
        names_unique(s.remove(i)),
        map_of(s.remove(i)) == map_of(s).remove(s[i].0@),
{
    let t = s.remove(i);
    s.remove_ensures(i);
    assert forall|a: int, b: int| 0 <= a < b < t.len() implies (#[trigger] t[a]).0@ != (
    #[trigger] t[b]).0@ by {
        let sa: int = if a < i { a } else { a + 1 };
        let sb: int = if b < i { b } else { b + 1 };
        assert(t[a] == s[sa] && t[b] == s[sb]);
    }
    let name = s[i].0@;
    assert forall|k: Seq<char>|
        #![trigger map_of(t).dom().contains(k)]
        #![trigger map_of(s).remove(name).dom().contains(k)]
        true implies {
        &&& map_of(t).dom().contains(k) == map_of(s).remove(name).dom().contains(k)
        &&& (map_of(t).dom().contains(k) ==> map_of(t)[k] == map_of(s).remove(name)[k])
    } by {
        if k == name {
            assert(!has_name(t, k)) by {
                if has_name(t, k) {
                    let a = index_of(t, k);
                    assert(0 <= a < t.len() && t[a].0@ == k);
                    let sa: int = if a < i { a } else { a + 1 };
                    assert(t[a] == s[sa]);
                    assert(sa != i);
                    if sa < i {
                        assert(s[sa].0@ != s[i].0@);
                    } else {
                        assert(s[i].0@ != s[sa].0@);
                    }
                }
            }
        } else {
            if has_name(s, k) {
                let a = index_of(s, k);
                assert(0 <= a < s.len() && s[a].0@ == k);
                assert(a != i);
                let ta: int = if a < i { a } else { a - 1 };
                assert(t[ta] == s[a]);
                lemma_unique_index(t, ta, k);
                lemma_unique_index(s, a, k);
            } else {
                assert(!has_name(t, k)) by {
                    if has_name(t, k) {
                        let a = index_of(t, k);
                        assert(0 <= a < t.len() && t[a].0@ == k);
                        let sa: int = if a < i { a } else { a + 1 };
                        assert(t[a] == s[sa]);
                    }
                }
            }
        }
    }
    assert(map_of(t) =~= map_of(s).remove(name));
}

/// Rebinding the handle at entry `i` — whatever the new handle is — keeps
/// the names unique and only rebinds that entry's name in the map.
proof fn lemma_map_update_handles<H>(s: Seq<(String, H)>, i: int)
    requires
        names_unique(s),
        0 <= i < s.len(),
    ensures
        forall|h: H|
            {
                &&& names_unique(#[trigger] s.update(i, (s[i].0, h)))
                &&& map_of(s.update(i, (s[i].0, h))) == map_of(s).insert(s[i].0@, h)
            },
{
    assert forall|h: H|
        {
            &&& names_unique(#[trigger] s.update(i, (s[i].0, h)))
            &&& map_of(s.update(i, (s[i].0, h))) == map_of(s).insert(s[i].0@, h)
        } by {
        lemma_map_update(s, i, (s[i].0, h));
    }
}

/// Appending an entry with a fresh name keeps the names unique and adds
/// exactly that name to the map.
proof fn lemma_map_push<H>(s: Seq<(String, H)>, name: String, h: H)
    requires
        names_unique(s),
        !has_name(s, name@),
    ensures
        names_unique(s.push((name, h))),
        map_of(s.push((name, h))) == map_of(s).insert(name@, h),
{
    let t = s.push((name, h));
    assert forall|i: int, j: int| 0 <= i < j < t.len() implies (#[trigger] t[i]).0@ != (
    #[trigger] t[j]).0@ by {
        if j < s.len() {
            assert(t[i] == s[i] && t[j] == s[j]);
        } else {
            assert(t[j] == (name, h));
            assert(t[i] == s[i]);
            assert(s[i].0@ != name@);
        }
    }
    assert forall|k: Seq<char>|
        #![trigger map_of(t).dom().contains(k)]
        #![trigger map_of(s).insert(name@, h).dom().contains(k)]
        true implies {
        &&& map_of(t).dom().contains(k) == map_of(s).insert(name@, h).dom().contains(k)
        &&& (map_of(t).dom().contains(k) ==> map_of(t)[k] == map_of(s).insert(name@, h)[k])
    } by {
        if k == name@ {
            assert(t[s.len() as int].0@ == k);
            lemma_unique_index(t, s.len() as int, k);
        } else {
            if has_name(s, k) {
                let i = index_of(s, k);
                assert(0 <= i < s.len() && s[i].0@ == k);
                assert(t[i] == s[i]);
                lemma_unique_index(t, i, k);
                lemma_unique_index(s, i, k);
            } else {
                assert(!has_name(t, k)) by {
                    if has_name(t, k) {
                        let i = index_of(t, k);
                        assert(0 <= i < t.len() && t[i].0@ == k);
                        assert(i < s.len());
                        assert(t[i] == s[i]);
                    }
                }
            }
        }
    }
    assert(map_of(t) =~= map_of(s).insert(name@, h));
}

/// Replacing the entry at `i` by one carrying the same name keeps the
/// names unique and only rebinds that name in the map.
proof fn lemma_map_update<H>(s: Seq<(String, H)>, i: int, p: (String, H))
    requires
        names_unique(s),
        0 <= i < s.len(),
        p.0@ == s[i].0@,
    ensures
        names_unique(s.update(i, p)),
        map_of(s.update(i, p)) == map_of(s).insert(p.0@, p.1),
{
    let t = s.update(i, p);
    assert forall|a: int, b: int| 0 <= a < b < t.len() implies (#[trigger] t[a]).0@ != (
    #[trigger] t[b]).0@ by {
        assert(t[a].0@ == s[a].0@ && t[b].0@ == s[b].0@);
    }
    assert forall|k: Seq<char>|
        #![trigger map_of(t).dom().contains(k)]
        #![trigger map_of(s).insert(p.0@, p.1).dom().contains(k)]
        true implies {
        &&& map_of(t).dom().contains(k) == map_of(s).insert(p.0@, p.1).dom().contains(k)
        &&& (map_of(t).dom().contains(k) ==> map_of(t)[k] == map_of(s).insert(p.0@, p.1)[k])
    } by {
        if k == p.0@ {
            assert(t[i] == p);
            lemma_unique_index(t, i, k);
            assert(s[i].0@ == k);
            lemma_unique_index(s, i, k);
        } else {
            if has_name(s, k) {
                let a = index_of(s, k);
                assert(0 <= a < s.len() && s[a].0@ == k);
                assert(a != i);
                assert(t[a] == s[a]);
                lemma_unique_index(t, a, k);
                lemma_unique_index(s, a, k);
            } else {
                assert(!has_name(t, k)) by {
                    if has_name(t, k) {
                        let a = index_of(t, k);
                        assert(0 <= a < t.len() && t[a].0@ == k);
                        assert(a != i);
                        assert(t[a] == s[a]);
                    }
                }
            }
        }
    }
    assert(map_of(t) =~= map_of(s).insert(p.0@, p.1));
}

/// With unique names, the entry at `i` is what the map gives for its name.
proof fn lemma_unique_index<H>(s: Seq<(String, H)>, i: int, name: Seq<char>)
    requires
        names_unique(s),
        0 <= i < s.len(),
        s[i].0@ == name,
    ensures
        has_name(s, name),
        index_of(s, name) == i,
        map_of(s).dom().contains(name),
        map_of(s)[name] == s[i].1,
{
    assert(has_name(s, name));
    let j = index_of(s, name);
    assert(0 <= j < s.len() && s[j].0@ == name);
    if j != i {
        if j < i {
            assert(s[j].0@ != s[i].0@);
        } else {
            assert(s[i].0@ != s[j].0@);
        }
    }
}

} // verus!
