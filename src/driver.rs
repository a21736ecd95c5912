use vstd::prelude::*;
use crate::error::{Error, Phase};
use crate::methods::{contains_token, Method, MethodScript};
use crate::sampler::{all_zero, draw, lemma_total_at_most, total};
use crate::set::{projects, same_but_data, with_seen, Card, CardSet, CardType, SlimCard};

verus! {

/// The most cards a test can weigh without its total overflowing a `u64`.
pub const TEST_CARDS_LIMIT: u64 = 0x5555_5555_5555_5555;

/// The test weight of an unseen card, in halves.
pub const TEST_WEIGHT_UNSEEN: u64 = 2;

/// The test weight of an unseen starred card, in halves.
pub const TEST_WEIGHT_STARRED: u64 = 3;

/// The weight of a card in a test on the given target: zero once seen or when
/// outside the target, one for an unseen card and one and a half for an unseen
/// starred card (counted in halves).
pub open spec fn test_weight(c: Card, t: CardType) -> u64 {
    if !t.admits(c) || c.seen_in_test {
        0
    } else if c.starred {
        TEST_WEIGHT_STARRED
    } else {
        TEST_WEIGHT_UNSEEN
    }
}

/// The positive test response.
pub open spec fn positive() -> Seq<char> {
    seq!['y']
}

/// The negative test response.
pub open spec fn negative() -> Seq<char> {
    seq!['n']
}

/// `c` after the test response `response`: seen, starred on the negative
/// response where `mark_starred`, unstarred on the positive one where
/// `mark_unstarred`.
pub open spec fn test_answered(
    c: Card,
    response: Seq<char>,
    mark_starred: bool,
    mark_unstarred: bool,
) -> Card {
    Card {
        seen_in_test: true,
        starred: if response == negative() && mark_starred {
            true
        } else if response == positive() && mark_unstarred {
            false
        } else {
            c.starred
        },
        ..c
    }
}

/// Facts about the test weights `w` of `cards`: each is at most three, so they
/// add up to at most three per card, and they are all zero exactly where every
/// card weighs zero.
proof fn lemma_test_weights(w: Seq<u64>, cards: Seq<Card>, t: CardType)
    requires
        w.len() == cards.len(),
        forall|k: int| 0 <= k < w.len() ==> w[k] == test_weight(cards[k], t),
    ensures
        total(w) <= 3 * w.len(),
        all_zero(w) <==> forall|k: int| 0 <= k < cards.len() ==> test_weight(cards[k], t) == 0,
{
    assert forall|k: int| 0 <= k < w.len() implies w[k] <= 3 by {
        assert(w[k] == test_weight(cards[k], t));
    }
    lemma_total_at_most(w, 3);
    if all_zero(w) {
        assert forall|k: int| 0 <= k < cards.len() implies test_weight(cards[k], t) == 0 by {
            assert(w[k] == 0);
        }
    }
    if forall|k: int| 0 <= k < cards.len() ==> test_weight(cards[k], t) == 0 {
        assert forall|k: int| 0 <= k < w.len() implies w[k] == 0 by {
            assert(test_weight(cards[k], t) == 0);
        }
    }
}

/// With the default settings, the negative test response stars a card and the
/// positive one unstars it; both mark it seen.
pub proof fn lemma_test_answer_marks(c: Card)
    ensures
        test_answered(c, negative(), true, true).starred,
        test_answered(c, negative(), true, true).seen_in_test,
        !test_answered(c, positive(), true, true).starred,
        test_answered(c, positive(), true, true).seen_in_test,
{
    assert(positive() != negative()) by {
        assert(positive()[0] != negative()[0]);
    }
}

/// `c` after a learn adjustment that returned the metadata `data` and the
/// difficulty `difficult`: the metadata is always taken, the difficulty only
/// where `mutate_difficulty`.
pub open spec fn adjusted_card(c: Card, data: String, difficult: bool, mutate_difficulty: bool) -> Card {
    Card {
        method_data: data,
        difficult: if mutate_difficulty {
            difficult
        } else {
            c.difficult
        },
        ..c
    }
}

/// Writes what a learn adjustment returned back into the card.
pub fn apply_adjustment(card: &mut Card, adjusted: (String, bool), mutate_difficulty: bool)
    ensures
        *final(card) == adjusted_card(*old(card), adjusted.0, adjusted.1, mutate_difficulty),
{
    let (data, difficult) = adjusted;
    card.method_data = data;
    if mutate_difficulty {
        card.difficult = difficult;
    }
}

/// A session over one set: draws cards by weight, hands them out one at a time,
/// and applies the responses. With a method it runs a learn pass; without one, a
/// test.
pub struct Driver<S> {
    method: Option<Method<S>>,
    set: CardSet,
    latest_card: Option<usize>,
    max_count: Option<u32>,
    curr_count: u32,
    target: CardType,
    mark_starred: bool,
    mutate_difficulty: bool,
    mark_unstarred: bool,
}

impl<S: MethodScript> Driver<S> {
    /// The set being worked on.
    pub closed spec fn set_spec(&self) -> CardSet {
        self.set
    }

    /// The cards of the set being worked on.
    pub open spec fn cards(&self) -> Seq<Card> {
        self.set_spec().cards@
    }

    /// The index of the card awaiting a response, if any.
    pub closed spec fn latest(&self) -> Option<usize> {
        self.latest_card
    }

    /// How many cards have been handed out.
    pub closed spec fn count(&self) -> u32 {
        self.curr_count
    }

    /// The most cards this driver hands out, if bounded.
    pub closed spec fn max(&self) -> Option<u32> {
        self.max_count
    }

    /// The category the driver draws from.
    pub closed spec fn target_spec(&self) -> CardType {
        self.target
    }

    /// Whether this driver runs a test.
    pub closed spec fn is_test(&self) -> bool {
        self.method is None
    }

    /// The name of the learn method, if any.
    pub closed spec fn method_name(&self) -> Seq<char> {
        match self.method {
            Some(m) => m.name@,
            None => seq![],
        }
    }

    /// The allowed responses.
    pub closed spec fn responses_spec(&self) -> Seq<Seq<char>> {
        match self.method {
            Some(m) => m.responses@.map_values(|t: String| t@),
            None => seq![positive(), negative()],
        }
    }

    /// Whether wrong test answers star a card.
    pub closed spec fn marks_starred(&self) -> bool {
        self.mark_starred
    }

    /// Whether right test answers unstar a card.
    pub closed spec fn marks_unstarred(&self) -> bool {
        self.mark_unstarred
    }

    /// Whether the learn method may change a card's difficulty.
    pub closed spec fn mutates_difficulty(&self) -> bool {
        self.mutate_difficulty
    }

    /// The driver is internally consistent.
    pub closed spec fn wf(&self) -> bool {
        &&& self.set.wf()
        &&& (self.latest_card matches Some(i) ==> i < self.set.cards@.len())
        &&& (self.method matches Some(m) ==> m.wf())
    }

    /// `self` and `o` have the same method and settings.
    pub open spec fn same_config(&self, o: &Self) -> bool {
        &&& self.is_test() == o.is_test()
        &&& self.method_name() == o.method_name()
        &&& self.responses_spec() == o.responses_spec()
        &&& self.max() == o.max()
        &&& self.target_spec() == o.target_spec()
        &&& self.marks_starred() == o.marks_starred()
        &&& self.mutates_difficulty() == o.mutates_difficulty()
        &&& self.marks_unstarred() == o.marks_unstarred()
    }

    /// No more cards may be handed out, whatever their weights.
    pub open spec fn capped(&self) -> bool {
        self.max() == Some(self.count()) || self.count() == u32::MAX
    }

    /// `f` records that a pass of `o`'s mode is in progress.
    pub open spec fn marked(o: Self, f: Self) -> bool {
        &&& f.set_spec().method@ == o.set_spec().method@
        &&& if o.is_test() {
            f.set_spec().test_in_progress && f.set_spec().run_state == o.set_spec().run_state
        } else {
            &&& (f.set_spec().run_state matches Some(n) && n@ == o.method_name())
            &&& f.set_spec().test_in_progress == o.set_spec().test_in_progress
        }
    }

    /// `f` records that the pass of `o`'s mode finished, and its cards were reset:
    /// in a test, every card is unseen again; in a learn pass, every card holds the
    /// same (default) metadata.
    pub open spec fn finished(o: Self, f: Self) -> bool {
        &&& f.set_spec().method@ == o.set_spec().method@
        &&& f.cards().len() == o.cards().len()
        &&& if o.is_test() {
            &&& !f.set_spec().test_in_progress
            &&& f.set_spec().run_state == o.set_spec().run_state
            &&& forall|i: int| 0 <= i < o.cards().len() ==> f.cards()[i] == with_seen(o.cards()[i], false)
        } else {
            &&& f.set_spec().run_state is None
            &&& f.set_spec().test_in_progress == o.set_spec().test_in_progress
            &&& forall|i: int|
                0 <= i < o.cards().len() ==> same_but_data(f.cards()[i], o.cards()[i])
            &&& forall|i: int, j: int|
                0 <= i < o.cards().len() && 0 <= j < o.cards().len() ==> (#[trigger] f.cards()[i]).method_data@
                    == (#[trigger] f.cards()[j]).method_data@
        }
    }

    /// `first` stopped at the bound on the count, changing nothing but the marker.
    pub open spec fn post_capped(o: Self, f: Self, r: Result<Option<SlimCard>, Error>) -> bool {
        o.capped() ==> {
            &&& (r matches Ok(None))
            &&& Self::marked(o, f)
            &&& f.cards() == o.cards()
            &&& f.latest() == o.latest()
            &&& f.count() == o.count()
        }
    }

    /// `first` handed out the projection of a card of the target that weighs
    /// more than zero, and now awaits a response to it.
    pub open spec fn post_drawn(o: Self, f: Self, r: Result<Option<SlimCard>, Error>) -> bool {
        r matches Ok(Some(s)) ==> {
            &&& !o.capped()
            &&& Self::marked(o, f)
            &&& f.cards() == o.cards()
            &&& f.count() == o.count() + 1
            &&& (f.latest() matches Some(i) && {
                &&& i < o.cards().len()
                &&& o.target_spec().admits(o.cards()[i as int])
                &&& projects(s, o.cards()[i as int])
                &&& o.is_test() ==> test_weight(o.cards()[i as int], o.target_spec()) != 0
            })
        }
    }

    /// `first` found the target exhausted and finished the pass.
    pub open spec fn post_done(o: Self, f: Self, r: Result<Option<SlimCard>, Error>) -> bool {
        (r matches Ok(None) && !o.capped()) ==> {
            &&& Self::finished(o, f)
            &&& f.latest() == o.latest()
            &&& f.count() == o.count()
            &&& o.is_test() ==> forall|i: int|
                0 <= i < o.cards().len() ==> test_weight(o.cards()[i], o.target_spec()) == 0
        }
    }

    /// `first` failed (a script, or weights too large), leaving the cards as they were.
    pub open spec fn post_failed(o: Self, f: Self, r: Result<Option<SlimCard>, Error>) -> bool {
        r is Err ==> {
            &&& (!o.is_test() || r matches Err(Error::WeightsTooLarge))
            &&& (o.is_test() ==> o.cards().len() > TEST_CARDS_LIMIT)
            &&& (r matches Err(Error::WeightsTooLarge) || r matches Err(Error::ScriptRuntime { .. }))
            &&& Self::marked(o, f)
            &&& f.cards() == o.cards()
            &&& f.latest() == o.latest()
            &&& f.count() == o.count()
        }
    }

    /// In a test below the bound, `first` ends the pass exactly where every card
    /// of the target weighs zero.
    pub open spec fn post_test_done(o: Self, r: Result<Option<SlimCard>, Error>) -> bool {
        (o.is_test() && !o.capped()) ==> ((r matches Ok(None)) <==> forall|i: int|
            0 <= i < o.cards().len() ==> test_weight(o.cards()[i], o.target_spec()) == 0)
    }

    /// What `first` does, from the driver `o` to the driver `f` with result `r`.
    pub open spec fn first_post(o: Self, f: Self, r: Result<Option<SlimCard>, Error>) -> bool {
        &&& f.wf()
        &&& f.same_config(&o)
        &&& Self::post_capped(o, f, r)
        &&& Self::post_drawn(o, f, r)
        &&& Self::post_done(o, f, r)
        &&& Self::post_failed(o, f, r)
        &&& Self::post_test_done(o, r)
    }

    /// `m` is `o` with a response applied: the cards are `cards`, no card awaits a
    /// response, and the rest is unchanged.
    pub open spec fn answered(o: Self, m: Self, cards: Seq<Card>) -> bool {
        &&& m.same_config(&o)
        &&& m.set_spec().method == o.set_spec().method
        &&& m.set_spec().run_state == o.set_spec().run_state
        &&& m.set_spec().test_in_progress == o.set_spec().test_in_progress
        &&& m.cards() == cards
        &&& m.latest() is None
        &&& m.count() == o.count()
        &&& m.wf()
    }

    /// With a bound of `n` cards, a step of `first` from a driver that has handed
    /// out at most `n` keeps it at most `n`, and one from a driver that has handed
    /// out exactly `n` hands out nothing, whatever weight remains.
    pub proof fn lemma_bound_holds(o: Self, f: Self, r: Result<Option<SlimCard>, Error>, n: u32)
        requires
            Self::first_post(o, f, r),
            o.max() == Some(n),
            o.count() <= n,
        ensures
            f.max() == Some(n),
            f.count() <= n,
            o.count() == n ==> (r matches Ok(None)),
    {
    }

    /// With a bound of `n` cards, the session from a fresh driver hands out at
    /// most `n`: a step of `next` keeps the count at most `n`, as `first` does.
    pub proof fn lemma_bound_holds_after_answer(
        o: Self,
        m: Self,
        f: Self,
        cards: Seq<Card>,
        r: Result<Option<SlimCard>, Error>,
        n: u32,
    )
        requires
            Self::answered(o, m, cards),
            Self::first_post(m, f, r),
            o.max() == Some(n),
            o.count() <= n,
        ensures
            f.max() == Some(n),
            f.count() <= n,
            o.count() == n ==> (r matches Ok(None)),
    {
    }

    /// `self` and `o` differ at most in their settings.
    pub open spec fn same_session(&self, o: &Self) -> bool {
        &&& self.is_test() == o.is_test()
        &&& self.method_name() == o.method_name()
        &&& self.responses_spec() == o.responses_spec()
        &&& self.set_spec() == o.set_spec()
        &&& self.latest() == o.latest()
        &&& self.count() == o.count()
    }

    /// A fresh driver over `set` with the default settings: all cards, no bound,
    /// stars marked and unmarked, difficulty mutable.
    pub open spec fn fresh(d: Self, set: CardSet) -> bool {
        &&& d.wf()
        &&& d.set_spec() == set
        &&& d.latest() is None
        &&& d.count() == 0
        &&& d.max() is None
        &&& d.target_spec() == CardType::All
        &&& d.marks_starred()
        &&& d.marks_unstarred()
        &&& d.mutates_difficulty()
    }

    /// Starts a learn session on `set` with `method`.
    ///
    /// Fails with `MethodMismatch`, and hands the set back, where the set has an
    /// unfinished pass under another method.
    pub fn new_learn(set: CardSet, method: Method<S>) -> (r: Result<Self, (Error, CardSet)>)
        requires
            set.wf(),
            method.wf(),
        ensures
            r is Err <==> (set.run_state matches Some(n) && n@ != method.name@),
            r matches Err((e, s)) ==> s == set && (e matches Error::MethodMismatch { recorded, requested }
                && set.run_state == Some(recorded) && requested@ == method.name@),
            r matches Ok(d) ==> Self::fresh(d, set) && !d.is_test() && d.method_name() == method.name@
                && d.responses_spec() == method.responses@.map_values(|t: String| t@),
    {
        let mismatch = match &set.run_state {
            Some(n) => *n != method.name,
            None => false,
        };
        if mismatch {
            let recorded = match &set.run_state {
                Some(n) => n.clone(),
                None => String::new(),
            };
            return Err((Error::MethodMismatch { recorded, requested: method.name }, set));
        }
        Ok(Driver {
            method: Some(method),
            set,
            latest_card: None,
            max_count: None,
            curr_count: 0,
            target: CardType::All,
            mark_starred: true,
            mutate_difficulty: true,
            mark_unstarred: true,
        })
    }

    /// Starts a test on `set`, with the responses "y" and "n".
    pub fn new_test(set: CardSet) -> (r: Self)
        requires
            set.wf(),
        ensures
            Self::fresh(r, set),
            r.is_test(),
            r.responses_spec() == seq![positive(), negative()],
    {
        Driver {
            method: None,
            set,
            latest_card: None,
            max_count: None,
            curr_count: 0,
            target: CardType::All,
            mark_starred: true,
            mutate_difficulty: true,
            mark_unstarred: true,
        }
    }

    /// Restricts the draws to the given category.
    pub fn set_target(&mut self, target: CardType) -> (r: &mut Self)
        ensures
            *final(self) == *final(r),
            r.same_session(old(self)),
            r.target_spec() == target,
            r.max() == old(self).max(),
            r.marks_starred() == old(self).marks_starred(),
            r.marks_unstarred() == old(self).marks_unstarred(),
            r.mutates_difficulty() == old(self).mutates_difficulty(),
            r.wf() == old(self).wf(),
    {
        self.target = target;
        self
    }

    /// Hands out at most `count` cards.
    pub fn set_max_count(&mut self, count: u32) -> (r: &mut Self)
        ensures
            *final(self) == *final(r),
            r.same_session(old(self)),
            r.target_spec() == old(self).target_spec(),
            r.max() == Some(count),
            r.marks_starred() == old(self).marks_starred(),
            r.marks_unstarred() == old(self).marks_unstarred(),
            r.mutates_difficulty() == old(self).mutates_difficulty(),
            r.wf() == old(self).wf(),
    {
        self.max_count = Some(count);
        self
    }

    /// In a test, no longer stars the cards answered wrongly.
    pub fn no_mark_starred(&mut self) -> (r: &mut Self)
        ensures
            *final(self) == *final(r),
            r.same_session(old(self)),
            r.target_spec() == old(self).target_spec(),
            r.max() == old(self).max(),
            !r.marks_starred(),
            r.marks_unstarred() == old(self).marks_unstarred(),
            r.mutates_difficulty() == old(self).mutates_difficulty(),
            r.wf() == old(self).wf(),
    {
        self.mark_starred = false;
        self
    }

    /// In a test, no longer unstars the cards answered rightly.
    pub fn no_mark_unstarred(&mut self) -> (r: &mut Self)
        ensures
            *final(self) == *final(r),
            r.same_session(old(self)),
            r.target_spec() == old(self).target_spec(),
            r.max() == old(self).max(),
            r.marks_starred() == old(self).marks_starred(),
            !r.marks_unstarred(),
            r.mutates_difficulty() == old(self).mutates_difficulty(),
            r.wf() == old(self).wf(),
    {
        self.mark_unstarred = false;
        self
    }

    /// In a learn session, keeps the method from changing the difficulty of cards.
    pub fn no_mutate_difficulty(&mut self) -> (r: &mut Self)
        ensures
            *final(self) == *final(r),
            r.same_session(old(self)),
            r.target_spec() == old(self).target_spec(),
            r.max() == old(self).max(),
            r.marks_starred() == old(self).marks_starred(),
            r.marks_unstarred() == old(self).marks_unstarred(),
            !r.mutates_difficulty(),
            r.wf() == old(self).wf(),
    {
        self.mutate_difficulty = false;
        self
    }

    /// The number of cards handed out so far, answered or not.
    pub fn get_count(&self) -> (r: u32)
        ensures
            r == self.count(),
    {
        self.curr_count
    }

    /// The set being worked on.
    pub fn set(&self) -> (r: &CardSet)
        ensures
            *r == self.set_spec(),
    {
        &self.set
    }

    /// Ends the session, handing the set back.
    pub fn into_set(self) -> (r: CardSet)
        ensures
            r == self.set_spec(),
    {
        self.set
    }

    /// The responses that `next` accepts, in display order.
    pub fn allowed_responses(&self) -> (r: Vec<String>)
        ensures
            r@.map_values(|t: String| t@) == self.responses_spec(),
    {
        match &self.method {
            Some(m) => {
                let mut out: Vec<String> = Vec::new();
                let mut i: usize = 0;
                while i < m.responses.len()
                    invariant
                        i <= m.responses@.len(),
                        out@.len() == i,
                        forall|k: int| 0 <= k < i ==> out@[k]@ == m.responses@[k]@,
                    decreases m.responses@.len() - i,
                {
                    out.push(m.responses[i].clone());
                    i = i + 1;
                }
                assert(out@.map_values(|t: String| t@) =~= m.responses@.map_values(|t: String| t@));
                out
            },
            None => {
                proof {
                    reveal_strlit("y");
                    reveal_strlit("n");
                }
                let mut out: Vec<String> = Vec::new();
                out.push("y".to_owned());
                out.push("n".to_owned());
                assert(out@[0]@ =~= positive());
                assert(out@[1]@ =~= negative());
                assert(out@.map_values(|t: String| t@) =~= seq![positive(), negative()]);
                out
            },
        }
    }

    /// The weight of every card: zero outside the target; in a test,
    /// [`test_weight`]; in a learn session, what the method's script computes.
    fn weights(&self) -> (r: Result<Vec<u64>, Error>)
        requires
            self.wf(),
        ensures
            r matches Ok(w) ==> {
                &&& w@.len() == self.cards().len()
                &&& forall|i: int|
                    0 <= i < w@.len() && !self.target_spec().admits(self.cards()[i]) ==> w@[i] == 0
                &&& self.is_test() ==> forall|i: int|
                    0 <= i < w@.len() ==> w@[i] == test_weight(self.cards()[i], self.target_spec())
            },
            r is Err ==> !self.is_test() && r matches Err(Error::ScriptRuntime { phase: Phase::Weighting, .. }),
    {
        let n = self.set.cards.len();
        let mut w: Vec<u64> = Vec::new();
        let mut i: usize = 0;
        while i < n
            invariant
                i <= n == self.set.cards@.len(),
                w@.len() == i,
                forall|k: int|
                    0 <= k < i && !self.target.admits(self.set.cards@[k]) ==> w@[k] == 0,
                self.method is None ==> forall|k: int|
                    0 <= k < i ==> w@[k] == test_weight(self.set.cards@[k], self.target),
            decreases n - i,
        {
            let card = &self.set.cards[i];
            let weight = if !self.target.contains(card) {
                0
            } else {
                match &self.method {
                    Some(m) => match m.script.weight(&card.method_data, card.difficult) {
                        Ok(x) => x,
                        Err(message) => {
                            return Err(Error::ScriptRuntime { phase: Phase::Weighting, message });
                        },
                    },
                    None => if card.seen_in_test {
                        0
                    } else if card.starred {
                        TEST_WEIGHT_STARRED
                    } else {
                        TEST_WEIGHT_UNSEEN
                    },
                }
            };
            w.push(weight);
            i = i + 1;
        }
        Ok(w)
    }

    /// Ends the pass: clears the in-progress marker and resets the cards.
    fn finish(&mut self) -> (r: Result<(), Error>)
        requires
            old(self).wf(),
        ensures
            r is Ok ==> Self::finished(*old(self), *final(self)) && final(self).same_config(old(self))
                && final(self).latest() == old(self).latest() && final(self).count() == old(self).count()
                && final(self).wf(),
            r is Err ==> !old(self).is_test() && *final(self) == *old(self),
            r is Err ==> r matches Err(Error::ScriptRuntime { phase: Phase::DefaultMetadata, .. }),
    {
        match &self.method {
            Some(m) => {
                let default = match m.script.default_metadata() {
                    Ok(d) => d,
                    Err(message) => {
                        return Err(Error::ScriptRuntime { phase: Phase::DefaultMetadata, message });
                    },
                };
                self.set.reset_learn(default);
            },
            None => {
                self.set.test_in_progress = false;
                self.set.reset_test();
            },
        }
        Ok(())
    }

    /// Draws the first card of the session (or the next one, when the last was
    /// answered), marking the set as having a pass in progress.
    ///
    /// Returns `None` once the bound on the count is reached, or where every card
    /// of the target weighs zero: then the pass is finished and its cards reset.
    pub fn first(&mut self) -> (r: Result<Option<SlimCard>, Error>)
        requires
            old(self).wf(),
        ensures
            final(self).wf(),
            final(self).same_config(old(self)),
            Self::post_capped(*old(self), *final(self), r),
            Self::post_drawn(*old(self), *final(self), r),
            Self::post_done(*old(self), *final(self), r),
            Self::post_failed(*old(self), *final(self), r),
            Self::post_test_done(*old(self), r),
    {
        match &self.method {
            Some(m) => {
                self.set.run_state = Some(m.name.clone());
            },
            None => {
                self.set.test_in_progress = true;
            },
        }
        let capped = match self.max_count {
            Some(k) => k == self.curr_count,
            None => false,
        };
        if capped || self.curr_count == u32::MAX {
            return Ok(None);
        }
        let weights = match self.weights() {
            Ok(w) => w,
            Err(e) => return Err(e),
        };
        proof {
            if self.method is None {
                lemma_test_weights(weights@, self.set.cards@, self.target);
            }
        }
        let drawn = draw(&weights);
        let ghost exhausted = forall|k: int|
            0 <= k < old(self).cards().len() ==> test_weight(old(self).cards()[k], old(self).target_spec()) == 0;
        proof {
            if self.method is None {
                assert(exhausted == all_zero(weights@));
                assert(exhausted <==> drawn matches Ok(None));
            }
        }
        match drawn {
            Err(_) => {
                proof {
                    assert(!all_zero(weights@));
                    if self.method is None {
                        let n = weights@.len() as int;
                        let t = total(weights@);
                        assert(n > TEST_CARDS_LIMIT) by (nonlinear_arith)
                            requires
                                t <= 3 * n,
                                t > u64::MAX,
                        ;
                    }
                }
                Err(Error::WeightsTooLarge)
            },
            Ok(None) => {
                match self.finish() {
                    Ok(()) => Ok(None),
                    Err(e) => Err(e),
                }
            },
            Ok(Some(i)) => {
                assert(!all_zero(weights@));
                self.latest_card = Some(i);
                self.curr_count = self.curr_count + 1;
                Ok(Some(self.set.cards[i].slim()))
            },
        }
    }

    /// Applies `response` to the card awaiting one, then draws as [`Self::first`].
    ///
    /// Fails with `InvalidResponse` where the response is not allowed, and with
    /// `ProtocolViolation` where no card awaits a response; both change nothing.
    /// In a test, the card becomes seen, starred on "n" and unstarred on "y" (as
    /// the settings allow). In a learn session, the method's adjustment gives the
    /// card new metadata (and difficulty, where allowed); where it fails nothing
    /// changes. The card no longer awaits a response before the next draw.
    pub fn next(&mut self, response: String) -> (r: Result<Option<SlimCard>, Error>)
        requires
            old(self).wf(),
        ensures
            final(self).wf(),
            !old(self).responses_spec().contains(response@) ==> (r matches Err(
                Error::InvalidResponse,
            ) && *final(self) == *old(self)),
            (old(self).responses_spec().contains(response@) && old(self).latest() is None) ==> (r matches Err(
                Error::ProtocolViolation,
            ) && *final(self) == *old(self)),
            old(self).latest() matches Some(i) ==> ((old(self).responses_spec().contains(response@)
                && old(self).is_test()) ==> exists|m: Self|
                Self::answered(
                    *old(self),
                    m,
                    old(self).cards().update(
                        i as int,
                        test_answered(
                            old(self).cards()[i as int],
                            response@,
                            old(self).marks_starred(),
                            old(self).marks_unstarred(),
                        ),
                    ),
                ) && Self::first_post(m, *final(self), r)),
            old(self).latest() matches Some(i) ==> ((old(self).responses_spec().contains(response@)
                && !old(self).is_test()) ==> ((r matches Err(Error::ScriptRuntime { phase: Phase::Adjustment, .. }) && *final(self)
                == *old(self)) || exists|m: Self, data: String, difficult: bool|
                Self::answered(
                    *old(self),
                    m,
                    old(self).cards().update(
                        i as int,
                        adjusted_card(
                            old(self).cards()[i as int],
                            data,
                            difficult,
                            old(self).mutates_difficulty(),
                        ),
                    ),
                ) && Self::first_post(m, *final(self), r))),
    {
        let allowed = self.allowed_responses();
        if !contains_token(&allowed, &response) {
            proof {
                assert forall|k: int| 0 <= k < self.responses_spec().len() implies self.responses_spec()[k]
                    != response@ by {
                    assert(self.responses_spec()[k] == allowed@[k]@);
                }
            }
            return Err(Error::InvalidResponse);
        }
        proof {
            let k = choose|k: int| 0 <= k < allowed@.len() && allowed@[k]@ == response@;
            assert(self.responses_spec()[k] == response@);
        }
        let i = match self.latest_card {
            Some(i) => i,
            None => return Err(Error::ProtocolViolation),
        };
        match &self.method {
            Some(m) => {
                let adjusted = m.script.adjust(
                    &response,
                    &self.set.cards[i].method_data,
                    self.set.cards[i].difficult,
                );
                match adjusted {
                    Ok(pair) => {
                        apply_adjustment(&mut self.set.cards[i], pair, self.mutate_difficulty);
                    },
                    Err(message) => {
                        return Err(Error::ScriptRuntime { phase: Phase::Adjustment, message });
                    },
                }
            },
            None => {
                proof {
                    reveal_strlit("y");
                    reveal_strlit("n");
                }
                let positive_token = "y".to_owned();
                let negative_token = "n".to_owned();
                assert(negative_token@ =~= negative());
                assert(positive_token@ =~= positive());
                let is_negative = response == negative_token;
                let is_positive = response == positive_token;
                assert(is_negative == (response@ == negative()));
                assert(is_positive == (response@ == positive()));
                self.set.cards[i].seen_in_test = true;
                if is_negative && self.mark_starred {
                    self.set.cards[i].starred = true;
                } else if is_positive && self.mark_unstarred {
                    self.set.cards[i].starred = false;
                }
                assert(self.set.cards@[i as int] == test_answered(
                    old(self).cards()[i as int],
                    response@,
                    old(self).marks_starred(),
                    old(self).marks_unstarred(),
                ));
            },
        }
        self.latest_card = None;
        let ghost mid = *self;
        let r = self.first();
        proof {
            let c = mid.set.cards@[i as int];
            assert(mid.set.cards@ =~= old(self).set.cards@.update(i as int, c));
            if mid.method is None {
                assert(c == test_answered(
                    old(self).cards()[i as int],
                    response@,
                    old(self).marks_starred(),
                    old(self).marks_unstarred(),
                ));
            } else {
                assert(c == adjusted_card(old(self).cards()[i as int], c.method_data, c.difficult, old(self).mutates_difficulty()));
            }
            assert(Self::answered(*old(self), mid, old(self).cards().update(i as int, c)));
            assert(Self::first_post(mid, *final(self), r));
        }
        r
    }
}

} // verus!
