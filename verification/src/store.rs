//! The card store: the process-lifetime, append-only list of created
//! cards, held as an explicitly owned value rather than a process-wide
//! static, with the same two operations: append and snapshot.

use vstd::prelude::*;
use crate::card::Card;
use crate::card::CardView;

verus! {

/// The ordered collection of all created cards.
pub struct CardStore {
    cards: Vec<Card>,
}

impl View for CardStore {
    type V = Seq<CardView>;

    closed spec fn view(&self) -> Seq<CardView> {
        Seq::new(self.cards@.len(), |i: int| self.cards@[i]@)
    }
}

impl CardStore {
    /// The store starts empty.
    pub fn new() -> (s: Self)
        ensures
            s@ == Seq::<CardView>::empty(),
    {
        let s = CardStore { cards: Vec::new() };
        proof {
            assert(s@ =~= Seq::<CardView>::empty());
        }
        s
    }

    /// How many cards have been created so far.
    pub fn len(&self) -> (n: usize)
        ensures
            n == self@.len(),
    {
        self.cards.len()
    }

    /// Add a card at the end; nothing is validated and nothing is removed.
    pub fn append(&mut self, card: Card)
        ensures
            final(self)@ == old(self)@.push(card@),
    {
        self.cards.push(card);
        proof {
            assert(self@ =~= old(self)@.push(card@));
        }
    }

    /// A copy of the full list, safe to walk while the store lives on.
    pub fn snapshot(&self) -> (r: Vec<Card>)
        ensures
            r@.len() == self@.len(),
            forall|i: int| 0 <= i < r@.len() ==> r@[i]@ == self@[i],
    {
        let mut r: Vec<Card> = Vec::new();
        let mut i: usize = 0;
        while i < self.cards.len()
            invariant
                0 <= i <= self.cards.len(),
                r.len() == i,
                self@.len() == self.cards.len(),
                forall|j: int| 0 <= j < i ==> r@[j]@ == self@[j],
            decreases self.cards.len() - i,
        {
            r.push(self.cards[i].clone());
            i += 1;
        }
        r
    }
}

/// Append a newly created card to the store.
pub fn add_card(store: &mut CardStore, card: Card)
    ensures
        final(store)@ == old(store)@.push(card@),
{
    store.append(card);
}

} // verus!
