//! Named keymaps with one of them active, so that a prompt can change modes
//! (search, edit) by switching the bindings it consults.

use crate::readline::KeyBind;
use vstd::prelude::*;

verus! {

/// The index of the keymap named `name`.
pub open spec fn name_index(maps: Seq<(String, KeyBind)>, name: Seq<char>) -> Option<int>
    decreases maps.len(),
{
    if maps.len() == 0 {
        None
    } else if maps.last().0@ == name {
        Some(maps.len() - 1)
    } else {
        name_index(maps.drop_last(), name)
    }
}

/// Keymaps by name, and the name of the active one.
pub struct ActiveKeySwitcher {
    pub keymaps: Vec<(String, KeyBind)>,
    pub active: String,
}

impl ActiveKeySwitcher {
    /// The active name names a keymap.
    pub open spec fn wf(&self) -> bool {
        name_index(self.keymaps@, self.active@) is Some
    }

    /// A switcher holding `keymap` under `name`, active.
    pub fn new(name: &str, keymap: KeyBind) -> (r: ActiveKeySwitcher)
        ensures
            r.wf(),
            r.active@ == name@,
            r.keymaps@.len() == 1,
            r.keymaps@[0].0@ == name@,
            r.keymaps@[0].1 == keymap,
    {
        let mut keymaps: Vec<(String, KeyBind)> = Vec::new();
        keymaps.push((name.to_owned(), keymap));
        ActiveKeySwitcher { keymaps, active: name.to_owned() }
    }

    /// Holds `keymap` under `name`, in place of any keymap of that name.
    pub fn register(&mut self, name: &str, keymap: KeyBind)
        requires
            old(self).wf(),
        ensures
            final(self).wf(),
            final(self).active == old(self).active,
            name_index(final(self).keymaps@, name@) matches Some(i) && final(self).keymaps@[i].1
                == keymap,
            forall|n: Seq<char>|
                n != name@ ==> #[trigger] name_index(final(self).keymaps@, n) == name_index(
                    old(self).keymaps@,
                    n,
                ),
    {
        let ghost before = self.keymaps@;
        self.keymaps.push((name.to_owned(), keymap));
        assert(self.keymaps@.drop_last() =~= before);
        proof {
            lemma_name_index_bound(before, old(self).active@);
        }
    }

    /// Makes the keymap named `name` active, when there is one; returns
    /// whether it did.
    pub fn activate(&mut self, name: &str) -> (r: bool)
        requires
            old(self).wf(),
        ensures
            final(self).wf(),
            final(self).keymaps == old(self).keymaps,
            r == (name_index(old(self).keymaps@, name@) is Some),
            r ==> final(self).active@ == name@,
            !r ==> final(self).active == old(self).active,
    {
        match self.find(name) {
            Some(_) => {
                self.active = name.to_owned();
                true
            },
            None => false,
        }
    }

    /// The active keymap.
    pub fn get(&self) -> (r: &KeyBind)
        requires
            self.wf(),
        ensures
            name_index(self.keymaps@, self.active@) matches Some(i) && *r == self.keymaps@[i].1,
    {
        let name = self.active.as_str();
        assert(name@ == self.active@);
        let found = self.find(name);
        match found {
            Some(i) => {
                assert(name_index(self.keymaps@, self.active@) == Some(i as int));
                &self.keymaps[i].1
            },
            None => {
                assert(false);
                &self.keymaps[0].1
            },
        }
    }

    fn find(&self, name: &str) -> (r: Option<usize>)
        ensures
            r is None <==> name_index(self.keymaps@, name@) is None,
            r matches Some(k) ==> name_index(self.keymaps@, name@) == Some(k as int) && k
                < self.keymaps@.len(),
    {
        let mut i: usize = self.keymaps.len();
        assert(self.keymaps@.subrange(0, i as int) =~= self.keymaps@);
        while i > 0
            invariant
                i <= self.keymaps@.len(),
                name_index(self.keymaps@, name@) == name_index(self.keymaps@.subrange(0, i as int), name@),
            decreases i,
        {
            let ghost pre = self.keymaps@.subrange(0, i as int);
            assert(pre.drop_last() =~= self.keymaps@.subrange(0, i - 1));
            if str_eq(self.keymaps[i - 1].0.as_str(), name) {
                assert(pre.last() == self.keymaps@[i - 1]);
                assert(name_index(pre, name@) == Some(i - 1));
                return Some(i - 1);
            }
            i = i - 1;
        }
        assert(self.keymaps@.subrange(0, 0) =~= Seq::<(String, KeyBind)>::empty());
        None
    }
}

proof fn lemma_name_index_bound(maps: Seq<(String, KeyBind)>, name: Seq<char>)
    ensures
        name_index(maps, name) matches Some(i) ==> 0 <= i < maps.len() && maps[i].0@ == name,
    decreases maps.len(),
{
    if maps.len() > 0 {
        if maps.last().0@ == name {
            assert(name_index(maps, name) == Some(maps.len() - 1));
        } else {
            lemma_name_index_bound(maps.drop_last(), name);
            assert(name_index(maps, name) == name_index(maps.drop_last(), name));
            match name_index(maps.drop_last(), name) {
                Some(i) => {
                    assert(maps.drop_last()[i] == maps[i]);
                },
                None => {},
            }
        }
    }
}

/// Whether two strings hold the same characters.
fn str_eq(a: &str, b: &str) -> (r: bool)
    ensures
        r == (a@ == b@),
{
    let x = crate::text::chars_of(a);
    let y = crate::text::chars_of(b);
    if x.len() != y.len() {
        return false;
    }
    let mut i: usize = 0;
    while i < x.len()
        invariant
            x@ == a@,
            y@ == b@,
            x@.len() == y@.len(),
            i <= x@.len(),
            forall|j: int| 0 <= j < i ==> x@[j] == y@[j],
        decreases x@.len() - i,
    {
        if x[i] != y[i] {
            assert(x@[i as int] != y@[i as int]);
            return false;
        }
        i = i + 1;
    }
    assert(x@ =~= y@);
    true
}

} // verus!
