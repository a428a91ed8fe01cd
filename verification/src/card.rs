//! Command cards and decks.
//!
//! The draw mechanic itself lives outside the engine; these are the
//! plain card values it works with.

use vstd::prelude::*;
use crate::unit::UnitType;

verus! {

/// A board section that a card applies to.
#[derive(Clone, Copy, Debug, PartialEq, Eq, Structural, Hash)]
pub enum Section {
    Left,
    Right,
    Centre,
}

/// How many units a card orders.
#[derive(Clone, Copy, Debug, PartialEq, Eq, Structural, Hash)]
pub enum Units {
    All,
    UnitType(UnitType),
    Limited(u8),
}

/// A command card.
#[derive(Clone, Copy, Debug, PartialEq, Eq, Structural, Hash)]
pub enum Card {
    Normal { section: Section, units: Units },
    Recon(Section),
}

/// The fields a normal card is built from.
#[derive(Clone, Copy, Debug, PartialEq, Eq, Structural, Hash)]
pub struct CardBuilder {
    pub section: Section,
    pub units: Units,
    pub amount: u64,
}

impl Card {
    /// A normal card with the builder's section and unit count.
    pub fn new(builder: &CardBuilder) -> (c: Card)
        ensures
            c == (Card::Normal { section: builder.section, units: builder.units }),
    {
        Card::Normal { section: builder.section, units: builder.units }
    }
}

/// A named deck of cards.
#[derive(Debug)]
pub struct Deck {
    pub name: String,
    pub cards: Vec<Card>,
}

impl Deck {
    /// Shuffle the deck with the shared random source: repeatedly draw a
    /// card at a uniformly random position.  The result holds exactly
    /// the same cards, in some order.
    pub fn shuffle(&mut self)
        ensures
            final(self).cards@.to_multiset() == old(self).cards@.to_multiset(),
            final(self).cards@.len() == old(self).cards@.len(),
            final(self).name == old(self).name,
    {
        let mut result: Vec<Card> = Vec::new();
        proof {
            old(self).cards@.to_multiset_ensures();
            result@.to_multiset_ensures();
            assert(self.cards@.to_multiset().add(result@.to_multiset()) =~= old(
                self,
            ).cards@.to_multiset());
        }
        while self.cards.len() > 0
            invariant
                self.cards@.to_multiset().add(result@.to_multiset()) == old(
                    self,
                ).cards@.to_multiset(),
                self.cards@.len() + result@.len() == old(self).cards@.len(),
                self.name == old(self).name,
            decreases self.cards@.len(),
        {
            let ghost pre_cards = self.cards@;
            let ghost pre_result = result@;
            let i = crate::dice::random_below(self.cards.len());
            let c = self.cards.remove(i);
            result.push(c);
            proof {
                pre_cards.to_multiset_ensures();
                pre_result.to_multiset_ensures();
                assert(self.cards@.to_multiset() =~= pre_cards.to_multiset().remove(c));
                assert(result@.to_multiset() =~= pre_result.to_multiset().insert(c));
                assert(pre_cards.to_multiset().count(c) > 0) by {
                    assert(pre_cards.contains(c)) by {
                        assert(pre_cards[i as int] == c);
                    }
                }
                assert(self.cards@.to_multiset().add(result@.to_multiset())
                    =~= pre_cards.to_multiset().add(pre_result.to_multiset()));
            }
        }
        proof {
            self.cards@.to_multiset_ensures();
            assert forall|x: Card| self.cards@.to_multiset().count(x) == 0 by {
                assert(!self.cards@.contains(x));
            }
            assert(self.cards@.to_multiset().add(result@.to_multiset())
                =~= result@.to_multiset());
        }
        self.cards = result;
    }
}

} // verus!
