//! The protagonist's money, items and remembered topics.

use crate::text::{str_eq, string_of};
use vstd::prelude::*;

verus! {

/// The full name of the in-game currency.
pub const CURRENCY_NAME: &'static str = "フォリン";

/// The unit symbol of the currency.
pub const CURRENCY_UNIT: &'static str = "G";

/// The character sequences of a list of strings.
pub open spec fn strings_view(v: Seq<String>) -> Seq<Seq<char>> {
    v.map_values(|s: String| s@)
}

/// Index of the first entry of `v` equal to `x`, or `v.len()` when none is.
pub open spec fn first_index_of(v: Seq<Seq<char>>, x: Seq<char>) -> int
    decreases v.len(),
{
    if v.len() == 0 {
        0
    } else if v[0] == x {
        0
    } else {
        1 + first_index_of(v.drop_first(), x)
    }
}

pub proof fn lemma_first_index_of(v: Seq<Seq<char>>, x: Seq<char>)
    ensures
        0 <= first_index_of(v, x) <= v.len(),
        first_index_of(v, x) < v.len() <==> v.contains(x),
        first_index_of(v, x) < v.len() ==> v[first_index_of(v, x)] == x,
        forall|j: int| 0 <= j < first_index_of(v, x) ==> v[j] != x,
    decreases v.len(),
{
    if v.len() > 0 && v[0] != x {
        lemma_first_index_of(v.drop_first(), x);
        assert forall|j: int| 0 <= j < first_index_of(v, x) implies v[j] != x by {
            if j > 0 {
                assert(v[j] == v.drop_first()[j - 1]);
            }
        }
        if v.contains(x) {
            let k = choose|k: int| 0 <= k < v.len() && v[k] == x;
            assert(v.drop_first()[k - 1] == x);
        }
        if v.drop_first().contains(x) {
            let k = choose|k: int| 0 <= k < v.drop_first().len() && v.drop_first()[k] == x;
            assert(v[k + 1] == x);
        }
    } else if v.len() > 0 {
        assert(v[0] == x);
    }
}

/// The protagonist's belongings.
#[derive(Clone, Debug)]
pub struct PlayerInventory {
    pub gold: i32,
    pub items: Vec<String>,
    pub topics: Vec<String>,
}

impl Default for PlayerInventory {
    /// 100 gold, a herb and a torch, and two starting topics.
    fn default() -> (r: Self)
        ensures
            r.gold == 100,
            strings_view(r.items@) == seq!["やくそう"@, "松明"@],
            strings_view(r.topics@) == seq!["王都アルカン"@, "封魔の迷宮"@],
    {
        let mut items = Vec::new();
        items.push(string_of("やくそう"));
        items.push(string_of("松明"));
        let mut topics = Vec::new();
        topics.push(string_of("王都アルカン"));
        topics.push(string_of("封魔の迷宮"));
        let r = Self { gold: 100, items, topics };
        assert(strings_view(r.items@) =~= seq!["やくそう"@, "松明"@]);
        assert(strings_view(r.topics@) =~= seq!["王都アルカン"@, "封魔の迷宮"@]);
        r
    }
}

/// Whether some entry of `v` equals `x`.
pub fn contains_str(v: &Vec<String>, x: &str) -> (r: bool)
    ensures
        r == strings_view(v@).contains(x@),
{
    let mut i: usize = 0;
    while i < v.len()
        invariant
            0 <= i <= v.len(),
            forall|j: int| 0 <= j < i ==> v@[j]@ != x@,
        decreases v.len() - i,
    {
        if str_eq(v[i].as_str(), x) {
            assert(strings_view(v@)[i as int] == x@);
            return true;
        }
        i = i + 1;
    }
    assert(!strings_view(v@).contains(x@)) by {
        if strings_view(v@).contains(x@) {
            let k = choose|k: int| 0 <= k < strings_view(v@).len() && strings_view(v@)[k] == x@;
            assert(v@[k]@ == x@);
        }
    }
    false
}

impl PlayerInventory {
    /// Adds `amount` gold.
    pub fn add_gold(&mut self, amount: i32)
        requires
            i32::MIN <= old(self).gold + amount <= i32::MAX,
        ensures
            final(self).gold == old(self).gold + amount,
            final(self).items@ == old(self).items@,
            final(self).topics@ == old(self).topics@,
    {
        self.gold = self.gold + amount;
    }

    /// Pays `amount` when the purse holds at least that much; otherwise
    /// leaves the purse untouched. Returns whether it paid.
    pub fn spend_gold(&mut self, amount: i32) -> (r: bool)
        requires
            old(self).gold >= amount ==> old(self).gold - amount <= i32::MAX,
        ensures
            r == (old(self).gold >= amount),
            r ==> final(self).gold == old(self).gold - amount,
            !r ==> final(self).gold == old(self).gold,
            final(self).items@ == old(self).items@,
            final(self).topics@ == old(self).topics@,
    {
        if self.gold >= amount {
            self.gold = self.gold - amount;
            true
        } else {
            false
        }
    }

    /// Appends an item.
    pub fn add_item(&mut self, item: &str)
        ensures
            strings_view(final(self).items@) == strings_view(old(self).items@).push(item@),
            final(self).gold == old(self).gold,
            final(self).topics@ == old(self).topics@,
    {
        self.items.push(string_of(item));
        assert(strings_view(self.items@) =~= strings_view(old(self).items@).push(item@));
    }

    /// Whether the item is carried.
    pub fn has_item(&self, item: &str) -> (r: bool)
        ensures
            r == strings_view(self.items@).contains(item@),
    {
        contains_str(&self.items, item)
    }

    /// Removes the first copy of `item`, if any. Returns whether one was removed.
    pub fn remove_item(&mut self, item: &str) -> (r: bool)
        ensures
            r == strings_view(old(self).items@).contains(item@),
            strings_view(final(self).items@) == if r {
                strings_view(old(self).items@).remove(
                    first_index_of(strings_view(old(self).items@), item@),
                )
            } else {
                strings_view(old(self).items@)
            },
            final(self).gold == old(self).gold,
            final(self).topics@ == old(self).topics@,
    {
        proof {
            lemma_first_index_of(strings_view(self.items@), item@);
        }
        let mut i: usize = 0;
        while i < self.items.len()
            invariant
                0 <= i <= self.items.len(),
                self.items@ == old(self).items@,
                self.gold == old(self).gold,
                self.topics@ == old(self).topics@,
                forall|j: int| 0 <= j < i ==> self.items@[j]@ != item@,
                first_index_of(strings_view(self.items@), item@) >= i,
            decreases self.items.len() - i,
        {
            proof {
                lemma_first_index_of(strings_view(self.items@), item@);
                assert(strings_view(self.items@)[i as int] == self.items@[i as int]@);
            }
            if str_eq(self.items[i].as_str(), item) {
                let ghost before = strings_view(self.items@);
                assert(first_index_of(before, item@) == i) by {
                    assert(before[i as int] == item@);
                }
                self.items.remove(i);
                assert(strings_view(self.items@) =~= before.remove(i as int));
                return true;
            }
            i = i + 1;
        }
        assert(!strings_view(self.items@).contains(item@));
        false
    }

    /// Remembers a topic unless it is already known. Returns whether it was new.
    pub fn learn_topic(&mut self, topic: &str) -> (r: bool)
        ensures
            r == !strings_view(old(self).topics@).contains(topic@),
            strings_view(final(self).topics@) == if r {
                strings_view(old(self).topics@).push(topic@)
            } else {
                strings_view(old(self).topics@)
            },
            strings_view(final(self).topics@).contains(topic@),
            final(self).gold == old(self).gold,
            final(self).items@ == old(self).items@,
    {
        if self.has_topic(topic) {
            false
        } else {
            self.topics.push(string_of(topic));
            let ghost t = strings_view(self.topics@);
            assert(t =~= strings_view(old(self).topics@).push(topic@));
            assert(t[t.len() - 1] == topic@);
            true
        }
    }

    /// Whether the topic is known.
    pub fn has_topic(&self, topic: &str) -> (r: bool)
        ensures
            r == strings_view(self.topics@).contains(topic@),
    {
        contains_str(&self.topics, topic)
    }
}

} // verus!
