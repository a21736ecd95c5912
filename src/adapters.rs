use vstd::prelude::*;
use crate::error::Error;
use crate::methods::{has_entry, BundledScripts};
use crate::set::{Card, CardSet};

verus! {

/// Relies on uuid's `Uuid::new_v4` (through `as_u128`): a random identifier.
/// Nothing is promised of its value.
#[verifier::external_body]
fn random_id() -> (r: u128) {
    uuid::Uuid::new_v4().as_u128()
}

/// Resolves an adapter named on the command line: the script of the bundled
/// adapter with that name, or `None` where there is none (the name is then the
/// path of a custom adapter script).
pub fn parse_adapter(adapter: &str, bundled: &BundledScripts) -> (r: Option<String>)
    ensures
        r is Some <==> has_entry(bundled.entries@, adapter@),
        r matches Some(t) ==> exists|i: int|
            0 <= i < bundled.entries@.len() && bundled.entries@[i].0@ == adapter@
                && bundled.entries@[i].1@ == t@,
{
    let name = adapter.to_owned();
    match bundled.lookup(&name) {
        Some(t) => Some(t.clone()),
        None => None,
    }
}

/// Whether each element of `raw` holds at least a question and an answer.
pub open spec fn well_formed_output(raw: Seq<Option<Vec<String>>>) -> bool {
    forall|k: int| 0 <= k < raw.len() ==> (#[trigger] raw[k] matches Some(v) && v@.len() >= 2)
}

/// Reads the pairs out of what an adapter script produced: each element is a
/// list whose first two strings are a question and its answer (the rest is
/// ignored). Fails with `MalformedAdapterOutput` where an element is not such a
/// list.
pub fn pairs_from_output(raw: Vec<Option<Vec<String>>>) -> (r: Result<Vec<(String, String)>, Error>)
    ensures
        r is Ok <==> well_formed_output(raw@),
        r is Err ==> r matches Err(Error::MalformedAdapterOutput),
        r matches Ok(p) ==> p@.len() == raw@.len() && forall|k: int|
            0 <= k < p@.len() ==> (#[trigger] raw@[k] matches Some(v) && p@[k].0@ == v@[0]@
                && p@[k].1@ == v@[1]@),
{
    let mut pairs: Vec<(String, String)> = Vec::new();
    let mut i: usize = 0;
    while i < raw.len()
        invariant
            i <= raw@.len(),
            pairs@.len() == i,
            forall|k: int| 0 <= k < i ==> (#[trigger] raw@[k] matches Some(v) && v@.len() >= 2),
            forall|k: int|
                0 <= k < i ==> (#[trigger] raw@[k] matches Some(v) && pairs@[k].0@ == v@[0]@
                    && pairs@[k].1@ == v@[1]@),
        decreases raw@.len() - i,
    {
        match &raw[i] {
            Some(v) => {
                if v.len() < 2 {
                    return Err(Error::MalformedAdapterOutput);
                }
                pairs.push((v[0].clone(), v[1].clone()));
            },
            None => return Err(Error::MalformedAdapterOutput),
        }
        i = i + 1;
    }
    Ok(pairs)
}

/// A card fresh from import: given text, no flags, the given metadata.
pub open spec fn fresh_card(c: Card, question: Seq<char>, answer: Seq<char>, data: Seq<char>) -> bool {
    &&& c.question@ == question
    &&& c.answer@ == answer
    &&& !c.seen_in_test
    &&& !c.difficult
    &&& !c.starred
    &&& c.method_data@ == data
}

impl CardSet {
    /// An empty set for the given method.
    pub fn new_empty(method: String) -> (r: CardSet)
        ensures
            r.wf(),
            r.method@ == method@,
            r.cards@.len() == 0,
            r.run_state is None,
            !r.test_in_progress,
    {
        CardSet { method, cards: Vec::new(), run_state: None, test_in_progress: false }
    }

    /// The index of the first card with the given question, if any.
    pub fn find_question(&self, question: &String) -> (r: Option<usize>)
        ensures
            r matches Some(i) ==> i < self.cards@.len() && self.cards@[i as int].question@ == question@
                && forall|k: int| 0 <= k < i ==> self.cards@[k].question@ != question@,
            r is None ==> forall|k: int| 0 <= k < self.cards@.len() ==> self.cards@[k].question@ != question@,
    {
        let mut i: usize = 0;
        while i < self.cards.len()
            invariant
                i <= self.cards@.len(),
                forall|k: int| 0 <= k < i ==> self.cards@[k].question@ != question@,
            decreases self.cards@.len() - i,
        {
            if self.cards[i].question == *question {
                return Some(i);
            }
            i = i + 1;
        }
        None
    }

    /// The index of the card with the given identifier, if any.
    pub fn find_id(&self, id: u128) -> (r: Option<usize>)
        ensures
            r matches Some(i) ==> i < self.cards@.len() && self.cards@[i as int].id == id,
            r is None ==> forall|k: int| 0 <= k < self.cards@.len() ==> self.cards@[k].id != id,
    {
        let mut i: usize = 0;
        while i < self.cards.len()
            invariant
                i <= self.cards@.len(),
                forall|k: int| 0 <= k < i ==> self.cards@[k].id != id,
            decreases self.cards@.len() - i,
        {
            if self.cards[i].id == id {
                return Some(i);
            }
            i = i + 1;
        }
        None
    }

    /// A copy of this set.
    pub fn duplicate(&self) -> (r: CardSet)
        ensures
            r.method == self.method,
            r.cards@ == self.cards@,
            r.run_state == self.run_state,
            r.test_in_progress == self.test_in_progress,
    {
        let mut cards: Vec<Card> = Vec::new();
        let mut i: usize = 0;
        while i < self.cards.len()
            invariant
                i <= self.cards@.len(),
                cards@ == self.cards@.take(i as int),
            decreases self.cards@.len() - i,
        {
            let c = &self.cards[i];
            cards.push(
                Card {
                    id: c.id,
                    question: c.question.clone(),
                    answer: c.answer.clone(),
                    seen_in_test: c.seen_in_test,
                    difficult: c.difficult,
                    starred: c.starred,
                    method_data: c.method_data.clone(),
                },
            );
            assert(self.cards@.take(i as int + 1) =~= self.cards@.take(i as int).push(self.cards@[i as int]));
            i = i + 1;
        }
        assert(self.cards@.take(self.cards@.len() as int) =~= self.cards@);
        CardSet {
            method: self.method.clone(),
            cards,
            run_state: match &self.run_state {
                Some(n) => Some(n.clone()),
                None => None,
            },
            test_in_progress: self.test_in_progress,
        }
    }

    /// An identifier that no card holds: a random one, or, where that is taken,
    /// one above the largest identifier. `None` only where the largest possible
    /// identifier is taken too.
    fn fresh_id(&self) -> (r: Option<u128>)
        ensures
            r matches Some(id) ==> forall|j: int| 0 <= j < self.cards@.len() ==> self.cards@[j].id != id,
            r is None ==> exists|j: int| 0 <= j < self.cards@.len() && self.cards@[j].id == u128::MAX,
    {
        let id = random_id();
        if self.find_id(id).is_none() {
            return Some(id);
        }
        let mut largest: u128 = 0;
        let mut i: usize = 0;
        while i < self.cards.len()
            invariant
                i <= self.cards@.len(),
                forall|j: int| 0 <= j < i ==> self.cards@[j].id <= largest,
                i > 0 ==> exists|j: int| 0 <= j < i && self.cards@[j].id == largest,
                i == 0 ==> largest == 0,
            decreases self.cards@.len() - i,
        {
            if self.cards[i].id >= largest {
                largest = self.cards[i].id;
                assert(self.cards@[i as int].id == largest);
            } else {
                assert(exists|j: int| 0 <= j < i && self.cards@[j].id == largest);
            }
            i = i + 1;
        }
        if largest == u128::MAX {
            None
        } else {
            Some(largest + 1)
        }
    }

    /// Merges one imported pair into the set: see [`merged_step`]. Fails with
    /// `IdentifiersExhausted`, changing nothing, where a new card is due and no
    /// identifier is free.
    pub fn merge_pair(&mut self, question: String, answer: String, default: &String) -> (r: Result<
        (),
        Error,
    >)
        requires
            old(self).wf(),
        ensures
            final(self).wf(),
            final(self).same_header(old(self)),
            r is Ok ==> merged_step(old(self).cards@, final(self).cards@, question@, answer@, default@),
            r is Err ==> *final(self) == *old(self),
            r is Err ==> (r matches Err(Error::IdentifiersExhausted)),
            r is Err ==> first_question(old(self).cards@, question@) is None,
    {
        let card = Card {
            id: 0,
            question,
            answer,
            seen_in_test: false,
            difficult: false,
            starred: false,
            method_data: default.clone(),
        };
        match self.find_question(&card.question) {
            Some(k) => {
                let id = self.cards[k].id;
                proof {
                    assert(first_question(old(self).cards@, card.question@) == Some(k as int));
                }
                self.cards[k] = Card { id, ..card };
                proof {
                    assert(self.wf());
                }
                Ok(())
            },
            None => {
                proof {
                    assert(first_question(old(self).cards@, question@) is None);
                }
                let id = match self.fresh_id() {
                    Some(id) => id,
                    None => return Err(Error::IdentifiersExhausted),
                };
                let c = Card { id, ..card };
                let ghost cv = c;
                self.cards.push(c);
                proof {
                    assert(fresh_card(cv, question@, answer@, default@));
                    assert(self.cards@ == old(self).cards@.push(cv));
                }
                Ok(())
            },
        }
    }

    /// Merges imported pairs into the set, one after the other, each as
    /// [`merged_step`] says: a pair whose question matches a card replaces the
    /// first such card wholesale (keeping its identifier), and any other pair
    /// becomes a new card with an identifier no card holds. Every merged card is
    /// unflagged and holds `default` as its metadata; [`imported`] sums up the
    /// result. Where it fails, nothing changes.
    pub fn merge_pairs(&mut self, pairs: Vec<(String, String)>, default: &String) -> (r: Result<
        (),
        Error,
    >)
        requires
            old(self).wf(),
        ensures
            final(self).wf(),
            final(self).same_header(old(self)),
            r is Err ==> *final(self) == *old(self),
            r is Err ==> (r matches Err(Error::IdentifiersExhausted)),
            r is Ok ==> imported(old(self).cards@, final(self).cards@, pairs_view(pairs@), default@),
            r is Ok ==> exists|states: Seq<Seq<Card>>|
                #![trigger states.len()]
                states.len() == pairs@.len() + 1 && states[0] == old(self).cards@ && states.last()
                    == final(self).cards@ && forall|k: int|
                    0 <= k < pairs@.len() ==> merged_step(
                        #[trigger] states[k],
                        states[k + 1],
                        pairs@[k].0@,
                        pairs@[k].1@,
                        default@,
                    ),
    {
        let mut work = self.duplicate();
        let n = pairs.len();
        let ghost states: Seq<Seq<Card>> = seq![work.cards@];
        proof {
            assert(pairs_view(pairs@).take(0) =~= Seq::<(Seq<char>, Seq<char>)>::empty());
            lemma_imported_nothing(work.cards@, default@);
        }
        let mut i: usize = 0;
        while i < n
            invariant
                i <= n == pairs@.len(),
                *self == *old(self),
                self.wf(),
                work.wf(),
                work.same_header(old(self)),
                states.len() == i + 1,
                states[0] == old(self).cards@,
                states.last() == work.cards@,
                forall|k: int|
                    0 <= k < i ==> merged_step(
                        #[trigger] states[k],
                        states[k + 1],
                        pairs@[k].0@,
                        pairs@[k].1@,
                        default@,
                    ),
                imported(old(self).cards@, work.cards@, pairs_view(pairs@).take(i as int), default@),
            decreases n - i,
        {
            let ghost mid = work.cards@;
            match work.merge_pair(pairs[i].0.clone(), pairs[i].1.clone(), default) {
                Ok(()) => {},
                Err(e) => return Err(e),
            }
            proof {
                states = states.push(work.cards@);
                let pv = pairs_view(pairs@);
                assert(pv.take(i as int + 1) =~= pv.take(i as int).push(pv[i as int]));
                lemma_imported_step(
                    old(self).cards@,
                    mid,
                    work.cards@,
                    pv.take(i as int),
                    pairs@[i as int].0@,
                    pairs@[i as int].1@,
                    default@,
                );
            }
            i = i + 1;
        }
        proof {
            assert(pairs_view(pairs@).take(n as int) =~= pairs_view(pairs@));
        }
        *self = work;
        Ok(())
    }

    /// Imports what an adapter script produced: reads the pairs out of it (see
    /// [`pairs_from_output`]) and merges them (see [`Self::merge_pairs`]). Where
    /// it fails, nothing changes.
    pub fn import_output(&mut self, raw: Vec<Option<Vec<String>>>, default: &String) -> (r: Result<
        (),
        Error,
    >)
        requires
            old(self).wf(),
        ensures
            final(self).wf(),
            final(self).same_header(old(self)),
            r is Err ==> *final(self) == *old(self),
            !well_formed_output(raw@) ==> r matches Err(Error::MalformedAdapterOutput),
            r matches Err(e) ==> e is MalformedAdapterOutput || e is IdentifiersExhausted,
            r is Ok ==> well_formed_output(raw@) && imported(
                old(self).cards@,
                final(self).cards@,
                output_view(raw@),
                default@,
            ),
    {
        let ghost rv = raw@;
        let pairs = match pairs_from_output(raw) {
            Ok(p) => p,
            Err(e) => return Err(e),
        };
        proof {
            assert(pairs_view(pairs@) =~= output_view(rv));
        }
        self.merge_pairs(pairs, default)
    }
}

/// The pairs as text.
pub open spec fn pairs_view(p: Seq<(String, String)>) -> Seq<(Seq<char>, Seq<char>)> {
    p.map_values(|x: (String, String)| (x.0@, x.1@))
}

/// The question/answer pairs of well-formed adapter output, as text.
pub open spec fn output_view(raw: Seq<Option<Vec<String>>>) -> Seq<(Seq<char>, Seq<char>)> {
    raw.map_values(
        |o: Option<Vec<String>>|
            match o {
                Some(v) => (v@[0]@, v@[1]@),
                None => (Seq::empty(), Seq::empty()),
            },
    )
}

/// Whether some pair asks the question `q`.
pub open spec fn asked(pairs: Seq<(Seq<char>, Seq<char>)>, q: Seq<char>) -> bool {
    exists|k: int| 0 <= k < pairs.len() && #[trigger] pairs[k].0 == q
}

/// Whether some card has the question `q`.
pub open spec fn has_question(cards: Seq<Card>, q: Seq<char>) -> bool {
    exists|j: int| 0 <= j < cards.len() && #[trigger] cards[j].question@ == q
}

/// No later pair asks the question of pair `k`.
pub open spec fn last_asked(pairs: Seq<(Seq<char>, Seq<char>)>, k: int) -> bool {
    forall|k2: int| k < k2 < pairs.len() ==> #[trigger] pairs[k2].0 != pairs[k].0
}

/// No earlier card has the question of card `i`.
pub open spec fn first_asking(cards: Seq<Card>, i: int) -> bool {
    forall|j: int| 0 <= j < i ==> #[trigger] cards[j].question@ != cards[i].question@
}

/// `c` carries no flags and the metadata `d`.
pub open spec fn unflagged(c: Card, d: Seq<char>) -> bool {
    !c.seen_in_test && !c.difficult && !c.starred && c.method_data@ == d
}

/// How many questions of `pairs` no card of `before` has, each counted once.
pub open spec fn new_questions(before: Seq<Card>, pairs: Seq<(Seq<char>, Seq<char>)>) -> nat
    decreases pairs.len(),
{
    if pairs.len() == 0 {
        0
    } else {
        let rest = pairs.drop_last();
        let q = pairs.last().0;
        new_questions(before, rest) + if has_question(before, q) || asked(rest, q) {
            0nat
        } else {
            1nat
        }
    }
}

/// `after` is `before` with `pairs` imported under the default metadata `d`:
/// - one new card for each question no card had;
/// - the old cards keep their positions, identifiers and questions;
/// - an old card whose question no pair asks is unchanged;
/// - every new card, and every old card that was first with a question some
///   pair asks, is unflagged and holds `d`;
/// - for each question, a card holds the answer of the last pair asking it;
/// - the questions are those of `before` and of `pairs`.
pub open spec fn imported(
    before: Seq<Card>,
    after: Seq<Card>,
    pairs: Seq<(Seq<char>, Seq<char>)>,
    d: Seq<char>,
) -> bool {
    &&& after.len() == before.len() + new_questions(before, pairs)
    &&& forall|i: int|
        0 <= i < before.len() ==> #[trigger] after[i].id == before[i].id && after[i].question@
            == before[i].question@
    &&& forall|i: int|
        0 <= i < before.len() && !asked(pairs, before[i].question@) ==> #[trigger] after[i]
            == before[i]
    &&& forall|i: int|
        0 <= i < after.len() && (i >= before.len() || (asked(pairs, before[i].question@)
            && first_asking(before, i))) ==> unflagged(#[trigger] after[i], d) && asked(
            pairs,
            after[i].question@,
        )
    &&& forall|k: int|
        0 <= k < pairs.len() && last_asked(pairs, k) ==> exists|j: int|
            0 <= j < after.len() && #[trigger] after[j].question@ == pairs[k].0 && after[j].answer@
                == pairs[k].1 && unflagged(after[j], d)
    &&& forall|q: Seq<char>|
        #![trigger asked(pairs, q)]
        #![trigger has_question(after, q)]
        has_question(after, q) <==> has_question(before, q) || asked(pairs, q)
}

/// Importing no pairs changes nothing.
proof fn lemma_imported_nothing(cards: Seq<Card>, d: Seq<char>)
    ensures
        imported(cards, cards, Seq::empty(), d),
{
    assert forall|q: Seq<char>| has_question(cards, q) <==> has_question(cards, q) || #[trigger] asked(Seq::empty(), q) by {}
}

/// A card with question `q` exists exactly where a first one does.
proof fn lemma_first_question(cards: Seq<Card>, q: Seq<char>)
    ensures
        has_question(cards, q) <==> first_question(cards, q) is Some,
        first_question(cards, q) matches Some(k) ==> 0 <= k < cards.len() && cards[k].question@ == q
            && forall|j: int| 0 <= j < k ==> cards[j].question@ != q,
    decreases cards.len(),
{
    if cards.len() > 0 {
        let rest = cards.drop_last();
        lemma_first_question(rest, q);
        if has_question(rest, q) {
            let k = first_question(rest, q)->0;
            assert(cards[k] == rest[k]);
            assert forall|j: int| 0 <= j < k implies cards[j].question@ != q by {
                assert(cards[j] == rest[j]);
            }
        } else if cards.last().question@ == q {
            let k = cards.len() - 1;
            assert forall|j: int| 0 <= j < k implies cards[j].question@ != q by {
                assert(cards[j] == rest[j]);
                if cards[j].question@ == q {
                    assert(has_question(rest, q));
                }
            }
        } else {
            if has_question(cards, q) {
                let j = choose|j: int| 0 <= j < cards.len() && #[trigger] cards[j].question@ == q;
                assert(rest[j] == cards[j]);
                assert(has_question(rest, q));
            }
        }
    }
}

/// One merged pair extends an import by that pair.
proof fn lemma_imported_step(
    before: Seq<Card>,
    mid: Seq<Card>,
    after: Seq<Card>,
    pairs: Seq<(Seq<char>, Seq<char>)>,
    q: Seq<char>,
    a: Seq<char>,
    d: Seq<char>,
)
    requires
        imported(before, mid, pairs, d),
        merged_step(mid, after, q, a, d),
    ensures
        imported(before, after, pairs.push((q, a)), d),
{
    let p2 = pairs.push((q, a));
    lemma_first_question(mid, q);
    assert(p2.drop_last() =~= pairs);
    assert(p2.last().0 == q);
    let landing = match first_question(mid, q) {
        Some(k) => k,
        None => mid.len() as int,
    };
    if first_question(mid, q) is None {
        let c = choose|c: Card| fresh_card(c, q, a, d) && (forall|j: int| 0 <= j < mid.len() ==> mid[j].id != c.id) && after == mid.push(c);
        assert(after[landing] == c);
    }
    assert(fresh_card(after[landing], q, a, d));
    assert(landing < after.len());
    assert forall|j: int| 0 <= j < after.len() && j != landing implies j < mid.len() && after[j] == mid[j] by {}
    assert forall|j: int| 0 <= j < mid.len() implies after[j].id == mid[j].id && after[j].question@ == mid[j].question@ by {}
    // The questions.
    assert forall|x: Seq<char>| has_question(after, x) <==> has_question(mid, x) || x == q by {
        if has_question(after, x) {
            let j = choose|j: int| 0 <= j < after.len() && #[trigger] after[j].question@ == x;
            if j != landing {
                assert(mid[j].question@ == x);
            }
        }
        if has_question(mid, x) {
            let j = choose|j: int| 0 <= j < mid.len() && #[trigger] mid[j].question@ == x;
            assert(after[j].question@ == x);
        }
        if x == q {
            assert(after[landing].question@ == x);
        }
    }
    assert forall|x: Seq<char>| asked(p2, x) <==> asked(pairs, x) || x == q by {
        if asked(p2, x) {
            let k = choose|k: int| 0 <= k < p2.len() && #[trigger] p2[k].0 == x;
            if k < pairs.len() {
                assert(pairs[k].0 == x);
            }
        }
        if asked(pairs, x) {
            let k = choose|k: int| 0 <= k < pairs.len() && #[trigger] pairs[k].0 == x;
            assert(p2[k].0 == x);
        }
        if x == q {
            assert(p2[pairs.len() as int].0 == x);
        }
    }
    assert forall|x: Seq<char>| has_question(after, x) <==> has_question(before, x) || #[trigger] asked(p2, x) by {
        assert(has_question(mid, x) <==> has_question(before, x) || asked(pairs, x));
    }
    // The count.
    assert(has_question(mid, q) <==> has_question(before, q) || asked(pairs, q));
    assert(after.len() == before.len() + new_questions(before, p2));
    // Old cards.
    assert forall|i: int| 0 <= i < before.len() implies #[trigger] after[i].id == before[i].id && after[i].question@ == before[i].question@ by {
        assert(mid[i].id == before[i].id && mid[i].question@ == before[i].question@);
    }
    assert forall|i: int| 0 <= i < before.len() && !asked(p2, before[i].question@) implies #[trigger] after[i] == before[i] by {
        assert(!asked(pairs, before[i].question@));
        assert(mid[i] == before[i]);
        if i == landing {
            assert(after[i].question@ == q);
            assert(mid[i].question@ == q);
        }
    }
    // Merged cards.
    assert forall|i: int|
        0 <= i < after.len() && (i >= before.len() || (asked(p2, before[i].question@) && first_asking(before, i)))
        implies unflagged(#[trigger] after[i], d) && asked(p2, after[i].question@) by {
        if i == landing {
            assert(after[i].question@ == q);
        } else {
            assert(after[i] == mid[i]);
            if i < before.len() && !asked(pairs, before[i].question@) {
                assert(before[i].question@ == q);
                assert(mid[i] == before[i]);
                assert forall|j: int| 0 <= j < i implies mid[j].question@ != q by {
                    assert(mid[j].question@ == before[j].question@);
                    assert(before[j].question@ != before[i].question@);
                }
                assert(first_question(mid, q) == Some(i));
            }
        }
    }
    // Last answers.
    assert forall|k: int| 0 <= k < p2.len() && last_asked(p2, k) implies exists|j: int|
        0 <= j < after.len() && #[trigger] after[j].question@ == p2[k].0 && after[j].answer@ == p2[k].1
            && unflagged(after[j], d) by {
        if k == pairs.len() {
            assert(after[landing].question@ == p2[k].0);
        } else {
            assert(p2[k] == pairs[k]);
            assert(p2[pairs.len() as int].0 != p2[k].0);
            assert forall|k2: int| k < k2 < pairs.len() implies #[trigger] pairs[k2].0 != pairs[k].0 by {
                assert(p2[k2] == pairs[k2]);
            }
            assert(last_asked(pairs, k));
            let j = choose|j: int|
                0 <= j < mid.len() && #[trigger] mid[j].question@ == pairs[k].0 && mid[j].answer@
                    == pairs[k].1 && unflagged(mid[j], d);
            assert(j != landing);
            assert(after[j] == mid[j]);
        }
    }
}

/// The index of the first card with question `q`, if any.
pub open spec fn first_question(cards: Seq<Card>, q: Seq<char>) -> Option<int> {
    if exists|i: int|
        0 <= i < cards.len() && cards[i].question@ == q && forall|k: int|
            0 <= k < i ==> cards[k].question@ != q {
        Some(
            choose|i: int|
                0 <= i < cards.len() && cards[i].question@ == q && forall|k: int|
                    0 <= k < i ==> cards[k].question@ != q,
        )
    } else {
        None
    }
}

/// `after` is `before` with the pair (`q`, `a`) merged in. Where a card has the
/// question `q`, the first such card is replaced by a fresh card with the same
/// identifier. Otherwise a fresh card, with an identifier that no card of
/// `before` holds, is appended.
pub open spec fn merged_step(
    before: Seq<Card>,
    after: Seq<Card>,
    q: Seq<char>,
    a: Seq<char>,
    d: Seq<char>,
) -> bool {
    match first_question(before, q) {
        Some(k) => {
            &&& after.len() == before.len()
            &&& after[k].id == before[k].id
            &&& fresh_card(after[k], q, a, d)
            &&& forall|j: int| 0 <= j < before.len() && j != k ==> after[j] == before[j]
        },
        None => exists|c: Card|
            fresh_card(c, q, a, d) && (forall|j: int| 0 <= j < before.len() ==> before[j].id != c.id)
                && after == before.push(c),
    }
}

} // verus!
