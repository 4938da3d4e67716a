//! Sets of texts.

use crate::text;
use vstd::prelude::*;

verus! {

/// A set of texts; none occurs twice.
#[derive(Debug)]
pub struct StringSet {
    items: Vec<String>,
}

impl View for StringSet {
    type V = Set<Seq<char>>;

    closed spec fn view(&self) -> Set<Seq<char>> {
        text::views(self.items@).to_set()
    }
}

impl StringSet {
    #[verifier::type_invariant]
    spec fn distinct(self) -> bool {
        text::views(self.items@).no_duplicates()
    }

    /// The set that holds nothing.
    pub fn new() -> (res: Self)
        ensures
            res@ == Set::<Seq<char>>::empty(),
    {
        let items: Vec<String> = Vec::new();
        assert(text::views(items@).to_set() =~= Set::<Seq<char>>::empty());
        StringSet { items }
    }

    /// Whether a text is in the set.
    pub fn contains(&self, item: &str) -> (res: bool)
        ensures
            res == self@.contains(item@),
    {
        let n: usize = self.items.len();
        let mut i: usize = 0;
        let ghost all = text::views(self.items@);
        while i < n
            invariant
                i <= n,
                n == self.items@.len(),
                all == text::views(self.items@),
                forall|j: int| 0 <= j < i ==> #[trigger] all[j] != item@,
            decreases n - i,
        {
            if text::equal(self.items[i].as_str(), item) {
                assert(all[i as int] == item@);
                return true;
            }
            assert(all[i as int] == self.items@[i as int]@);
            i = i + 1;
        }
        false
    }

    /// Whether the set holds nothing.
    pub fn is_empty(&self) -> (res: bool)
        ensures
            res == (self@ == Set::<Seq<char>>::empty()),
    {
        if self.items.len() == 0 {
            assert(self@ =~= Set::<Seq<char>>::empty());
            true
        } else {
            assert(self@.contains(text::views(self.items@)[0]));
            false
        }
    }

    /// The set with one more text.
    pub fn with(self, item: String) -> (res: Self)
        ensures
            res@ == self@.insert(item@),
    {
        proof {
            use_type_invariant(&self);
        }
        if self.contains(item.as_str()) {
            assert(self@ =~= self@.insert(item@));
            return self;
        }
        let ghost before = text::views(self.items@);
        let mut items = self.items;
        items.push(item);
        proof {
            let after = text::views(items@);
            assert(after =~= before.push(item@));
            assert forall|i: int, j: int|
                0 <= i < after.len() && 0 <= j < after.len() && i != j implies after[i] != after[j] by {
                if i == before.len() {
                    assert(before.contains(after[j]));
                }
                if j == before.len() {
                    assert(before.contains(after[i]));
                }
            }
            assert forall|x: Seq<char>| after.to_set().contains(x) <==> before.to_set().insert(
                item@,
            ).contains(x) by {
                if before.contains(x) {
                    let k = choose|k: int| 0 <= k < before.len() && before[k] == x;
                    assert(after[k] == x);
                }
                if x == item@ {
                    assert(after[before.len() as int] == x);
                }
            }
            assert(after.to_set() =~= before.to_set().insert(item@));
        }
        StringSet { items }
    }
}

impl Clone for StringSet {
    fn clone(&self) -> (res: Self)
        ensures
            res@ == self@,
    {
        proof {
            use_type_invariant(self);
        }
        StringSet { items: text::copy_list(&self.items) }
    }
}

} // verus!
