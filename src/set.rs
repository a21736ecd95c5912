use vstd::prelude::*;

verus! {

/// A single question/answer unit together with its learning metadata.
pub struct Card {
    /// The identifier of this card, stable for its whole lifetime.
    pub id: u128,
    /// The prompt the user is given for this card.
    pub question: String,
    /// The answer shown on the other side of the card.
    pub answer: String,
    /// Whether this card has been seen yet in the active test.
    pub seen_in_test: bool,
    /// Whether this card has been marked as difficult by the learning method.
    pub difficult: bool,
    /// Whether this card has been starred (answered wrongly in a test).
    pub starred: bool,
    /// Data owned by the current learning method: the canonical JSON text of the
    /// value its script keeps for this card.
    pub method_data: String,
}

/// A read-only projection of a card, without the method's metadata.
pub struct SlimCard {
    /// The question on the card.
    pub question: String,
    /// The answer on the other side of the card.
    pub answer: String,
    /// Whether the card has been marked as difficult.
    pub difficult: bool,
    /// Whether the card has been starred.
    pub starred: bool,
}

/// The card categories that a session or a listing can be restricted to.
#[derive(Clone, Copy, Debug, PartialEq, Eq, Structural)]
pub enum CardType {
    /// All the cards in the set.
    All,
    /// Only cards marked as difficult.
    Difficult,
    /// Only starred cards.
    Starred,
}

/// A collection of cards with the bookkeeping of learn and test sessions.
pub struct CardSet {
    /// The name of the method that owns the `method_data` of every card.
    pub method: String,
    /// The cards of the set, each with an identifier of its own.
    pub cards: Vec<Card>,
    /// The name of the learn method with an unfinished pass, if any.
    pub run_state: Option<String>,
    /// Whether a test is in progress.
    pub test_in_progress: bool,
}

impl CardType {
    /// Whether a card with the given flags belongs to this category.
    pub open spec fn admits(self, c: Card) -> bool {
        match self {
            CardType::All => true,
            CardType::Difficult => c.difficult,
            CardType::Starred => c.starred,
        }
    }

    /// Whether a card with the given flags belongs to this category.
    pub fn contains(&self, card: &Card) -> (r: bool)
        ensures
            r == self.admits(*card),
    {
        match self {
            CardType::All => true,
            CardType::Difficult => card.difficult,
            CardType::Starred => card.starred,
        }
    }
}

/// Whether `s` is the projection of `c`.
pub open spec fn projects(s: SlimCard, c: Card) -> bool {
    &&& s.question@ == c.question@
    &&& s.answer@ == c.answer@
    &&& s.difficult == c.difficult
    &&& s.starred == c.starred
}

/// `c` with only its test flag changed.
pub open spec fn with_seen(c: Card, seen: bool) -> Card {
    Card { seen_in_test: seen, ..c }
}

/// `c` with only its star changed.
pub open spec fn with_star(c: Card, starred: bool) -> Card {
    Card { starred, ..c }
}

/// `a` and `b` agree on everything but the method metadata.
pub open spec fn same_but_data(a: Card, b: Card) -> bool {
    &&& a.id == b.id
    &&& a.question == b.question
    &&& a.answer == b.answer
    &&& a.seen_in_test == b.seen_in_test
    &&& a.difficult == b.difficult
    &&& a.starred == b.starred
}

impl Card {
    /// The read-only projection of this card.
    pub fn slim(&self) -> (r: SlimCard)
        ensures
            projects(r, *self),
    {
        SlimCard {
            question: self.question.clone(),
            answer: self.answer.clone(),
            difficult: self.difficult,
            starred: self.starred,
        }
    }
}

impl CardSet {
    /// The identifiers of the cards are pairwise distinct.
    pub open spec fn wf(&self) -> bool {
        forall|i: int, j: int|
            0 <= i < j < self.cards@.len() ==> self.cards@[i].id != self.cards@[j].id
    }

    /// Everything but the cards is the same in `self` and `other`.
    pub open spec fn same_header(&self, other: &CardSet) -> bool {
        &&& self.method@ == other.method@
        &&& self.run_state == other.run_state
        &&& self.test_in_progress == other.test_in_progress
    }

    /// Resets all test progress: clears `seen_in_test` on every card and nothing else.
    pub fn reset_test(&mut self)
        ensures
            final(self).same_header(old(self)),
            final(self).cards@.len() == old(self).cards@.len(),
            forall|i: int|
                0 <= i < old(self).cards@.len() ==> final(self).cards@[i] == with_seen(
                    old(self).cards@[i],
                    false,
                ),
    {
        let n = self.cards.len();
        let mut i: usize = 0;
        while i < n
            invariant
                i <= n == self.cards@.len() == old(self).cards@.len(),
                self.same_header(old(self)),
                forall|k: int| 0 <= k < i ==> self.cards@[k] == with_seen(old(self).cards@[k], false),
                forall|k: int| i <= k < n ==> self.cards@[k] == old(self).cards@[k],
            decreases n - i,
        {
            self.cards[i].seen_in_test = false;
            i = i + 1;
        }
    }

    /// Resets all stars: clears `starred` on every card and nothing else.
    pub fn reset_stars(&mut self)
        ensures
            final(self).same_header(old(self)),
            final(self).cards@.len() == old(self).cards@.len(),
            forall|i: int|
                0 <= i < old(self).cards@.len() ==> final(self).cards@[i] == with_star(
                    old(self).cards@[i],
                    false,
                ),
    {
        let n = self.cards.len();
        let mut i: usize = 0;
        while i < n
            invariant
                i <= n == self.cards@.len() == old(self).cards@.len(),
                self.same_header(old(self)),
                forall|k: int| 0 <= k < i ==> self.cards@[k] == with_star(old(self).cards@[k], false),
                forall|k: int| i <= k < n ==> self.cards@[k] == old(self).cards@[k],
            decreases n - i,
        {
            self.cards[i].starred = false;
            i = i + 1;
        }
    }

    /// Discards all learn progress: sets every card's metadata to `default` and
    /// clears `run_state`. Stars, difficulty and test progress stay.
    pub fn reset_learn(&mut self, default: String)
        ensures
            final(self).method@ == old(self).method@,
            final(self).run_state is None,
            final(self).test_in_progress == old(self).test_in_progress,
            final(self).cards@.len() == old(self).cards@.len(),
            forall|i: int|
                0 <= i < old(self).cards@.len() ==> same_but_data(
                    final(self).cards@[i],
                    old(self).cards@[i],
                ) && final(self).cards@[i].method_data@ == default@,
    {
        self.run_state = None;
        let n = self.cards.len();
        let mut i: usize = 0;
        while i < n
            invariant
                i <= n == self.cards@.len() == old(self).cards@.len(),
                self.method@ == old(self).method@,
                self.run_state is None,
                self.test_in_progress == old(self).test_in_progress,
                forall|k: int|
                    0 <= k < i ==> same_but_data(self.cards@[k], old(self).cards@[k])
                        && self.cards@[k].method_data@ == default@,
                forall|k: int| i <= k < n ==> self.cards@[k] == old(self).cards@[k],
            decreases n - i,
        {
            self.cards[i].method_data = default.clone();
            i = i + 1;
        }
    }

    /// The projections of the cards of the given category, in store order.
    pub fn list(&self, ty: CardType) -> (r: Vec<SlimCard>)
        ensures
            r@.len() == self.cards@.filter(|c: Card| ty.admits(c)).len(),
            forall|k: int|
                0 <= k < r@.len() ==> projects(r@[k], self.cards@.filter(|c: Card| ty.admits(c))[k]),
    {
        let mut out: Vec<SlimCard> = Vec::new();
        let mut i: usize = 0;
        while i < self.cards.len()
            invariant
                i <= self.cards@.len(),
                out@.len() == self.cards@.take(i as int).filter(|c: Card| ty.admits(c)).len(),
                forall|k: int|
                    0 <= k < out@.len() ==> projects(
                        out@[k],
                        self.cards@.take(i as int).filter(|c: Card| ty.admits(c))[k],
                    ),
            decreases self.cards@.len() - i,
        {
            proof {
                let f = |c: Card| ty.admits(c);
                assert(self.cards@.take(i as int + 1).drop_last() == self.cards@.take(i as int));
                reveal(Seq::filter);
            }
            if ty.contains(&self.cards[i]) {
                out.push(self.cards[i].slim());
            }
            i = i + 1;
        }
        assert(self.cards@.take(self.cards@.len() as int) == self.cards@);
        out
    }
}

} // verus!
