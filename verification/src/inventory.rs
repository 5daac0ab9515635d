//! The local inventory: the names of the plugin archives that are installed.

use crate::text::{lemma_texts_push, texts};
use vstd::prelude::*;
use vstd::seq_lib::*;

verus! {

/// The file names found in the plugin directory. Each name occurs once and
/// their order carries no meaning, so the inventory is viewed as a set.
#[derive(Debug)]
pub struct Inventory {
    names: Vec<String>,
}

impl View for Inventory {
    type V = Set<Seq<char>>;

    closed spec fn view(&self) -> Set<Seq<char>> {
        texts(self.names@).to_set()
    }
}

impl Inventory {
    /// No name is held twice.
    #[verifier::type_invariant]
    spec fn holds_each_name_once(&self) -> bool {
        texts(self.names@).no_duplicates()
    }

    /// An inventory always holds finitely many names.
    pub proof fn lemma_finite(&self)
        ensures
            self@.finite(),
    {
        seq_to_set_is_finite(texts(self.names@));
    }

    /// The inventory of an empty directory.
    pub fn new() -> (inventory: Inventory)
        ensures
            inventory@ == Set::<Seq<char>>::empty(),
    {
        let inventory = Inventory { names: Vec::new() };
        assert(texts(inventory.names@) =~= Seq::empty());
        assert(inventory@ =~= Set::<Seq<char>>::empty());
        inventory
    }

    /// Whether `name` is in the inventory.
    pub fn contains(&self, name: &str) -> (found: bool)
        ensures
            found == self@.contains(name@),
    {
        let wanted = name.to_owned();
        self.position(&wanted).is_some()
    }

    /// Where `name` is stored, if it is in the inventory.
    fn position(&self, name: &String) -> (at: Option<usize>)
        ensures
            at is Some == self@.contains(name@),
            at matches Some(i) ==> i < self.names@.len() && self.names@[i as int]@ == name@,
    {
        let mut i: usize = 0;
        while i < self.names.len()
            invariant
                i <= self.names@.len(),
                forall|k: int| 0 <= k < i ==> texts(self.names@)[k] != name@,
            decreases self.names@.len() - i,
        {
            if self.names[i] == *name {
                assert(texts(self.names@)[i as int] == name@);
                return Some(i);
            }
            i += 1;
        }
        None
    }

    /// Adds `name`; says whether it was new. A name already held is left as it is.
    pub fn insert(&mut self, name: String) -> (added: bool)
        ensures
            final(self)@ == old(self)@.insert(name@),
            added == !old(self)@.contains(name@),
    {
        if self.position(&name).is_some() {
            assert(self@ =~= self@.insert(name@));
            false
        } else {
            proof {
                use_type_invariant(&*self);
                lemma_texts_push(self.names@, name);
                texts(self.names@).lemma_push_to_set_commute(name@);
            }
            // The list is taken out while it grows and then put back, so
            // that the inventory is never seen with a list in the making.
            let mut names: Vec<String> = Vec::new();
            assert(texts(names@) =~= Seq::empty());
            std::mem::swap(&mut self.names, &mut names);
            names.push(name);
            std::mem::swap(&mut self.names, &mut names);
            true
        }
    }

    /// How many names the inventory holds.
    pub fn len(&self) -> (count: usize)
        ensures
            count == self@.len(),
    {
        proof {
            use_type_invariant(self);
            texts(self.names@).unique_seq_to_set();
        }
        self.names.len()
    }

    /// Whether the inventory holds no name at all.
    pub fn is_empty(&self) -> (empty: bool)
        ensures
            empty == (self@.len() == 0),
    {
        self.len() == 0
    }

    /// The names that the inventory holds, each once.
    pub fn names(&self) -> (names: &Vec<String>)
        ensures
            texts(names@).to_set() == self@,
            texts(names@).no_duplicates(),
    {
        proof {
            use_type_invariant(self);
        }
        &self.names
    }
}

} // verus!
