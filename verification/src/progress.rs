//! The progression of a game: which level is being played, how far its
//! recipe has come, and what each event makes of that.
//!
//! The progression owns the level index and the live recipe. It takes
//! events (a delivery, a level reset, a level advance) and answers with
//! what the program around it has to carry out. It holds no handle on
//! rendering or physics.

use vstd::prelude::*;
use crate::item::ItemKind;
use crate::levels::{Level, LevelRegistry};
use crate::recipe::{Outcome, Recipe, RecipeModel};

verus! {

/// Where the progression stands, in one word.
#[derive(Clone, Copy, Debug, PartialEq, Eq, Structural)]
pub enum Phase {
    /// A level is being played and nothing is owed.
    Playing,
    /// A level reset is owed. Before the first reset nothing is judged;
    /// after it, deliveries are judged until the reset is made.
    Resetting,
    /// The recipe is complete and a level advance is owed; a reset may be
    /// owed as well.
    Advancing,
    /// The last level is behind; nothing changes any more.
    GameComplete,
}

/// The visual feedback for a delivery.
#[derive(Clone, Copy, Debug, PartialEq, Eq, Structural)]
pub enum Effect {
    /// Shown for an accepted delivery.
    Positive,
    /// Shown for a rejected delivery.
    Negative,
}

/// A transition that a delivery asks for.
#[derive(Clone, Copy, Debug, PartialEq, Eq, Structural)]
pub enum Signal {
    ResetLevel,
    NextLevel,
}

/// What one delivery led to.
#[derive(Clone, Copy, Debug, PartialEq, Eq)]
pub struct Reaction {
    /// The verdict of the recipe, or `None` where the delivery was ignored.
    pub outcome: Option<Outcome>,
    /// The effect to show, if any.
    pub effect: Option<Effect>,
    /// Whether the recipe display has to be drawn again.
    pub refresh: bool,
    /// The transition that is owed now, if any.
    pub signal: Option<Signal>,
}

/// A request to the program around the progression.
#[derive(Clone, Copy, Debug, PartialEq, Eq, Structural)]
pub enum Request {
    /// Show this effect at the cauldron.
    Effect(Effect),
    /// Draw the recipe of `level` with its first `next_index` items done.
    RefreshDisplay { level: usize, next_index: usize },
    /// Remove every item that is in the world.
    DespawnItems,
    /// Put the placements of `level` into the world.
    SpawnLevel { level: usize },
}

/// What a verdict leads to: a positive effect and a fresh display for an
/// accepted delivery, with a level advance after the last one; a negative
/// effect and a level reset for a rejected one; nothing for an ignored one.
pub open spec fn reaction_to(outcome: Option<Outcome>) -> Reaction {
    match outcome {
        None => Reaction { outcome, effect: None, refresh: false, signal: None },
        Some(Outcome::Rejected) => Reaction {
            outcome,
            effect: Some(Effect::Negative),
            refresh: false,
            signal: Some(Signal::ResetLevel),
        },
        Some(Outcome::Accepted { complete }) => Reaction {
            outcome,
            effect: Some(Effect::Positive),
            refresh: true,
            signal: if complete {
                Some(Signal::NextLevel)
            } else {
                None
            },
        },
    }
}

/// The requests that a level reset makes, in order.
pub open spec fn reset_requests(level: nat) -> Seq<Request> {
    seq![
        Request::DespawnItems,
        Request::SpawnLevel { level: level as usize },
        Request::RefreshDisplay { level: level as usize, next_index: 0 },
    ]
}

/// A progression as a mathematical value.
pub struct ProgressModel {
    /// The recipe of every level, in playing order.
    pub templates: Seq<Seq<ItemKind>>,
    /// The index of the current level.
    pub level: nat,
    /// The live recipe.
    pub recipe: RecipeModel,
    /// Whether the first level reset has been made.
    pub started: bool,
    /// Whether a level reset is owed.
    pub reset_owed: bool,
    /// Whether the last level is behind.
    pub game_complete: bool,
}

impl ProgressModel {
    /// There is a current level and the live recipe is an attempt at it.
    /// Before the first reset nothing has been delivered and that reset is
    /// owed. A completed game stands on the last level and owes nothing.
    pub open spec fn wf(self) -> bool {
        &&& 1 <= self.templates.len()
        &&& forall|i: int| 0 <= i < self.templates.len() ==> 1 <= (#[trigger] self.templates[i]).len()
        &&& self.level < self.templates.len()
        &&& self.recipe.items == self.templates[self.level as int]
        &&& self.recipe.wf()
        &&& !self.started ==> self.recipe.cursor == 0
        &&& !self.started && !self.game_complete ==> self.reset_owed
        &&& self.game_complete ==> !self.has_next() && !self.reset_owed
    }

    /// The progression at the start of a game: level 0, nothing delivered,
    /// and the first level reset owed.
    pub open spec fn start(templates: Seq<Seq<ItemKind>>) -> ProgressModel {
        ProgressModel {
            templates,
            level: 0,
            recipe: RecipeModel::fresh(templates[0]),
            started: false,
            reset_owed: true,
            game_complete: false,
        }
    }

    /// Whether a level follows the current one.
    pub open spec fn has_next(self) -> bool {
        self.level + 1 < self.templates.len()
    }

    /// Whether a delivery is judged: the game has started, is not complete,
    /// and the live recipe still expects an item. That a reset is owed
    /// does not matter.
    pub open spec fn judges(self) -> bool {
        self.started && !self.game_complete && !self.recipe.is_complete()
    }

    /// Whether a level advance is owed: the recipe is complete and the game
    /// is not.
    pub open spec fn advance_owed(self) -> bool {
        !self.game_complete && self.recipe.is_complete()
    }

    /// The phase, in one word: complete before advancing before resetting
    /// before playing.
    pub open spec fn phase(self) -> Phase {
        if self.game_complete {
            Phase::GameComplete
        } else if self.recipe.is_complete() {
            Phase::Advancing
        } else if self.reset_owed {
            Phase::Resetting
        } else {
            Phase::Playing
        }
    }

    /// The verdict on a delivery of `kind`: that of the live recipe where
    /// deliveries are judged, none otherwise.
    pub open spec fn outcome(self, kind: ItemKind) -> Option<Outcome> {
        if self.judges() {
            Some(self.recipe.verdict(kind))
        } else {
            None
        }
    }

    /// The progression after a delivery of `kind`: a rejected one makes a
    /// reset owed, an accepted one moves the recipe on, an ignored one
    /// changes nothing.
    pub open spec fn after_delivery(self, kind: ItemKind) -> ProgressModel {
        match self.outcome(kind) {
            None => self,
            Some(Outcome::Rejected) => ProgressModel { reset_owed: true, ..self },
            Some(Outcome::Accepted { .. }) => ProgressModel {
                recipe: self.recipe.after(kind),
                ..self
            },
        }
    }

    /// The requests that a delivery of `kind` makes, in order: the effect
    /// first, then the display.
    pub open spec fn delivery_requests(self, kind: ItemKind) -> Seq<Request> {
        match self.outcome(kind) {
            None => Seq::empty(),
            Some(Outcome::Rejected) => seq![Request::Effect(Effect::Negative)],
            Some(Outcome::Accepted { .. }) => seq![
                Request::Effect(Effect::Positive),
                Request::RefreshDisplay {
                    level: self.level as usize,
                    next_index: self.recipe.after(kind).cursor as usize,
                },
            ],
        }
    }

    /// The progression after a level advance: on to the next level with a
    /// reset owed, or to the end of the game after the last level. A
    /// completed game stays as it is.
    pub open spec fn after_next_level(self) -> ProgressModel {
        if self.game_complete {
            self
        } else if self.has_next() {
            ProgressModel {
                level: self.level + 1,
                recipe: RecipeModel::fresh(self.templates[self.level as int + 1]),
                reset_owed: true,
                ..self
            }
        } else {
            ProgressModel { game_complete: true, reset_owed: false, ..self }
        }
    }

    /// The progression after a level reset: the same level, a fresh recipe,
    /// started, no reset owed. A completed game stays as it is.
    pub open spec fn after_reset(self) -> ProgressModel {
        if self.game_complete {
            self
        } else {
            ProgressModel {
                recipe: RecipeModel::fresh(self.templates[self.level as int]),
                started: true,
                reset_owed: false,
                ..self
            }
        }
    }

    /// The requests that a level reset makes: none in a completed game.
    pub open spec fn reset_level_requests(self) -> Seq<Request> {
        if self.game_complete {
            Seq::empty()
        } else {
            reset_requests(self.level)
        }
    }

    /// The progression after the player asked to start the level again: a
    /// reset is owed in a game that has started and is not complete;
    /// nothing changes otherwise.
    pub open spec fn after_restart_request(self) -> ProgressModel {
        if self.started && !self.game_complete {
            ProgressModel { reset_owed: true, ..self }
        } else {
            self
        }
    }

    /// The progression after the deliveries `kinds`, in order of arrival.
    pub open spec fn after_deliveries(self, kinds: Seq<ItemKind>) -> ProgressModel
        decreases kinds.len(),
    {
        if kinds.len() == 0 {
            self
        } else {
            self.after_deliveries(kinds.drop_last()).after_delivery(kinds.last())
        }
    }

    /// The requests that the deliveries `kinds` make, in order of arrival.
    pub open spec fn requests_of_deliveries(self, kinds: Seq<ItemKind>) -> Seq<Request>
        decreases kinds.len(),
    {
        if kinds.len() == 0 {
            Seq::empty()
        } else {
            self.requests_of_deliveries(kinds.drop_last()) + self.after_deliveries(
                kinds.drop_last(),
            ).delivery_requests(kinds.last())
        }
    }

    /// The progression after an advance, where one is owed.
    pub open spec fn advanced(self) -> ProgressModel {
        if self.advance_owed() {
            self.after_next_level()
        } else {
            self
        }
    }

    /// The progression once the owed transitions are made: an advance
    /// first, then a reset.
    pub open spec fn settled(self) -> ProgressModel {
        if self.advanced().reset_owed {
            self.advanced().after_reset()
        } else {
            self.advanced()
        }
    }

    /// The requests that settling makes: those of a level reset where one
    /// is made, none otherwise.
    pub open spec fn settle_requests(self) -> Seq<Request> {
        if self.advanced().reset_owed {
            self.advanced().reset_level_requests()
        } else {
            Seq::empty()
        }
    }

    /// The progression after one tick with the deliveries `kinds`.
    pub open spec fn after_tick(self, kinds: Seq<ItemKind>) -> ProgressModel {
        self.after_deliveries(kinds).settled()
    }

    /// The requests of one tick with the deliveries `kinds`, in order.
    pub open spec fn tick_requests(self, kinds: Seq<ItemKind>) -> Seq<Request> {
        self.requests_of_deliveries(kinds) + self.after_deliveries(kinds).settle_requests()
    }
}

/// The display that `requests` leave to draw: the level and cursor of the
/// last request for the display among them, if there is one.
pub open spec fn last_refresh(requests: Seq<Request>) -> Option<(usize, usize)>
    decreases requests.len(),
{
    if requests.len() == 0 {
        None
    } else {
        match requests.last() {
            Request::RefreshDisplay { level, next_index } => Some((level, next_index)),
            _ => last_refresh(requests.drop_last()),
        }
    }
}

/// The recipes of `levels`, in order.
pub open spec fn templates_of<P>(levels: Seq<Level<P>>) -> Seq<Seq<ItemKind>> {
    Seq::new(levels.len(), |i: int| levels[i].recipe@)
}

/// One attempt at a level: the level, and the recipe as it stands.
struct Attempt {
    level: usize,
    recipe: Recipe,
}

/// What is owed and what is behind.
#[derive(Clone, Copy)]
struct Status {
    started: bool,
    reset_owed: bool,
    game_complete: bool,
}

/// The progression of one game over the levels of a registry.
pub struct Progression<P> {
    registry: LevelRegistry<P>,
    attempt: Attempt,
    status: Status,
}

impl<P> View for Progression<P> {
    type V = ProgressModel;

    closed spec fn view(&self) -> ProgressModel {
        ProgressModel {
            templates: templates_of(self.registry@),
            level: self.attempt.level as nat,
            recipe: self.attempt.recipe@,
            started: self.status.started,
            reset_owed: self.status.reset_owed,
            game_complete: self.status.game_complete,
        }
    }
}

impl<P> Progression<P> {
    #[verifier::type_invariant]
    closed spec fn inv(self) -> bool {
        self@.wf()
    }

    /// The levels that the game runs over.
    pub closed spec fn levels(self) -> Seq<Level<P>> {
        self.registry@
    }

    /// A game over the levels of `registry`, at its start.
    pub fn new(registry: LevelRegistry<P>) -> (game: Progression<P>)
        ensures
            game@ == ProgressModel::start(templates_of(registry@)),
            game.levels() == registry@,
            game@.wf(),
    {
        let count = registry.level_count();
        let recipe = registry.fresh_recipe(0);
        Progression {
            registry,
            attempt: Attempt { level: 0, recipe },
            status: Status { started: false, reset_owed: true, game_complete: false },
        }
    }

    /// The registry that the game runs over.
    pub fn registry(&self) -> (r: &LevelRegistry<P>)
        ensures
            r@ == self.levels(),
            templates_of(r@) == self@.templates,
            self@.level < r@.len(),
            self@.wf(),
    {
        proof {
            use_type_invariant(self);
        }
        &self.registry
    }

    /// The index of the current level.
    pub fn level(&self) -> (n: usize)
        ensures
            n == self@.level,
            self@.wf(),
    {
        proof {
            use_type_invariant(self);
        }
        self.attempt.level
    }

    /// The phase, in one word.
    pub fn phase(&self) -> (p: Phase)
        ensures
            p == self@.phase(),
            self@.wf(),
    {
        proof {
            use_type_invariant(self);
        }
        if self.status.game_complete {
            Phase::GameComplete
        } else if self.attempt.recipe.is_complete() {
            Phase::Advancing
        } else if self.status.reset_owed {
            Phase::Resetting
        } else {
            Phase::Playing
        }
    }

    /// The live recipe.
    pub fn recipe(&self) -> (r: &Recipe)
        ensures
            r@ == self@.recipe,
            self@.wf(),
    {
        proof {
            use_type_invariant(self);
        }
        &self.attempt.recipe
    }

    /// Whether the first level reset has been made.
    pub fn has_started(&self) -> (b: bool)
        ensures
            b == self@.started,
            self@.wf(),
    {
        proof {
            use_type_invariant(self);
        }
        self.status.started
    }

    /// Whether a level reset is owed.
    pub fn reset_owed(&self) -> (b: bool)
        ensures
            b == self@.reset_owed,
            self@.wf(),
    {
        proof {
            use_type_invariant(self);
        }
        self.status.reset_owed
    }

    /// Whether a level advance is owed.
    pub fn advance_owed(&self) -> (b: bool)
        ensures
            b == self@.advance_owed(),
            self@.wf(),
    {
        proof {
            use_type_invariant(self);
        }
        !self.status.game_complete && self.attempt.recipe.is_complete()
    }

    /// Whether the last level is behind.
    pub fn is_game_complete(&self) -> (b: bool)
        ensures
            b == self@.game_complete,
            self@.wf(),
    {
        proof {
            use_type_invariant(self);
        }
        self.status.game_complete
    }

    /// Takes one delivery. Once the game has started, and as long as the
    /// live recipe expects an item, the recipe judges it, whether a reset
    /// is owed or not: an accepted kind moves the recipe on, and the last
    /// one makes a level advance owed; a rejected kind makes a level reset
    /// owed. Before the first reset, on a complete recipe and in a
    /// completed game the delivery is ignored.
    pub fn deliver(&mut self, kind: ItemKind) -> (reaction: Reaction)
        ensures
            reaction == reaction_to(old(self)@.outcome(kind)),
            final(self)@ == old(self)@.after_delivery(kind),
            final(self).levels() == old(self).levels(),
            final(self)@.wf(),
    {
        proof {
            use_type_invariant(&*self);
        }
        if !self.status.started || self.status.game_complete || self.attempt.recipe.is_complete() {
            return Reaction { outcome: None, effect: None, refresh: false, signal: None };
        }
        let outcome = self.attempt.recipe.verdict(kind);
        match outcome {
            Outcome::Rejected => {
                self.status = Status { reset_owed: true, ..self.status };
                Reaction {
                    outcome: Some(outcome),
                    effect: Some(Effect::Negative),
                    refresh: false,
                    signal: Some(Signal::ResetLevel),
                }
            },
            Outcome::Accepted { complete } => {
                self.attempt.recipe.submit(kind);
                Reaction {
                    outcome: Some(outcome),
                    effect: Some(Effect::Positive),
                    refresh: true,
                    signal: if complete {
                        Some(Signal::NextLevel)
                    } else {
                        None
                    },
                }
            },
        }
    }

    /// Makes a level advance. Where a level follows, it becomes the current
    /// one, a reset is owed, and the answer is `true`. After the last level
    /// the game is complete and the answer is `false`, as it is for a game
    /// that was complete before.
    pub fn next_level(&mut self) -> (advanced: bool)
        ensures
            advanced == old(self)@.has_next(),
            final(self)@ == old(self)@.after_next_level(),
            final(self).levels() == old(self).levels(),
            final(self)@.wf(),
    {
        proof {
            use_type_invariant(&*self);
        }
        if self.status.game_complete {
            false
        } else if self.registry.has_next(self.attempt.level) {
            let next = self.attempt.level + 1;
            self.status = Status { reset_owed: true, ..self.status };
            self.attempt = Attempt { level: next, recipe: self.registry.fresh_recipe(next) };
            true
        } else {
            self.status = Status { game_complete: true, reset_owed: false, ..self.status };
            false
        }
    }

    /// Makes a level reset: the current level starts again with a fresh
    /// recipe, and no reset is owed any more. The requests that come back
    /// say what has to happen in the world: every item removed, the
    /// content of the level put in, the display drawn again. A completed
    /// game is not reset and asks for nothing.
    pub fn reset_level(&mut self) -> (requests: Vec<Request>)
        ensures
            requests@ == old(self)@.reset_level_requests(),
            final(self)@ == old(self)@.after_reset(),
            final(self).levels() == old(self).levels(),
            final(self)@.wf(),
    {
        proof {
            use_type_invariant(&*self);
        }
        let mut requests: Vec<Request> = Vec::new();
        if !self.status.game_complete {
            let level = self.attempt.level;
            self.attempt = Attempt { level, recipe: self.registry.fresh_recipe(level) };
            self.status = Status { started: true, reset_owed: false, game_complete: false };
            requests.push(Request::DespawnItems);
            requests.push(Request::SpawnLevel { level });
            requests.push(Request::RefreshDisplay { level, next_index: 0 });
        }
        assert(requests@ =~= old(self)@.reset_level_requests());
        requests
    }

    /// Notes that the player asked to start the level again. The answer
    /// tells whether a reset is owed now that was not owed before.
    pub fn request_restart(&mut self) -> (owed: bool)
        ensures
            owed == (old(self)@.started && !old(self)@.game_complete && !old(self)@.reset_owed),
            final(self)@ == old(self)@.after_restart_request(),
            final(self).levels() == old(self).levels(),
            final(self)@.wf(),
    {
        proof {
            use_type_invariant(&*self);
        }
        if self.status.started && !self.status.game_complete {
            let owed = !self.status.reset_owed;
            self.status = Status { reset_owed: true, ..self.status };
            owed
        } else {
            false
        }
    }

    /// Runs one tick: takes the deliveries `kinds` in order of arrival, then
    /// makes the transitions that are owed, an advance before a reset. The
    /// requests come back in the order in which they were made.
    pub fn tick(&mut self, kinds: &Vec<ItemKind>) -> (requests: Vec<Request>)
        ensures
            requests@ == old(self)@.tick_requests(kinds@),
            final(self)@ == old(self)@.after_tick(kinds@),
            final(self).levels() == old(self).levels(),
            final(self)@.wf(),
    {
        let mut requests: Vec<Request> = Vec::new();
        let mut i: usize = 0;
        while i < kinds.len()
            invariant
                i <= kinds.len(),
                self@ == old(self)@.after_deliveries(kinds@.take(i as int)),
                requests@ == old(self)@.requests_of_deliveries(kinds@.take(i as int)),
                self.levels() == old(self).levels(),
            decreases kinds.len() - i,
        {
            assert(kinds@.take(i + 1).drop_last() =~= kinds@.take(i as int));
            let ghost before = self@;
            let reaction = self.deliver(kinds[i]);
            if let Some(effect) = reaction.effect {
                requests.push(Request::Effect(effect));
            }
            if reaction.refresh {
                requests.push(
                    Request::RefreshDisplay {
                        level: self.level(),
                        next_index: self.recipe().next_index(),
                    },
                );
            }
            assert(requests@ =~= old(self)@.requests_of_deliveries(kinds@.take(i as int))
                + before.delivery_requests(kinds@[i as int]));
            i = i + 1;
        }
        assert(kinds@.take(kinds@.len() as int) =~= kinds@);
        if self.advance_owed() {
            self.next_level();
        }
        if self.reset_owed() {
            let mut reset = self.reset_level();
            requests.append(&mut reset);
        }
        assert(requests@ =~= old(self)@.tick_requests(kinds@));
        requests
    }
}

/// The display that `requests` leave to draw: the level and the cursor of
/// the last request for the display among them, or `None` where none of
/// them asks for the display.
pub fn display_to_draw(requests: &Vec<Request>) -> (r: Option<(usize, usize)>)
    ensures
        r == last_refresh(requests@),
{
    let mut i: usize = requests.len();
    assert(requests@.take(i as int) =~= requests@);
    while i > 0
        invariant
            i <= requests.len(),
            last_refresh(requests@) == last_refresh(requests@.take(i as int)),
        decreases i,
    {
        i = i - 1;
        assert(requests@.take(i + 1).drop_last() =~= requests@.take(i as int));
        if let Request::RefreshDisplay { level, next_index } = requests[i] {
            return Some((level, next_index));
        }
    }
    None
}

/// Every transition keeps a progression well formed, keeps its levels, and
/// never moves the level index back.
pub proof fn lemma_transitions_keep_wf(m: ProgressModel, kind: ItemKind)
    requires
        m.wf(),
    ensures
        m.after_delivery(kind).wf(),
        m.after_next_level().wf(),
        m.after_reset().wf(),
        m.after_restart_request().wf(),
        m.after_delivery(kind).templates == m.templates,
        m.after_next_level().templates == m.templates,
        m.after_reset().templates == m.templates,
        m.after_restart_request().templates == m.templates,
        m.after_delivery(kind).level == m.level,
        m.after_reset().level == m.level,
        m.after_restart_request().level == m.level,
{
}

/// A level advance goes on by one level wherever a level follows, and
/// nowhere else: on the last level the game is complete and the level
/// stays.
pub proof fn lemma_next_level_follows_has_next(m: ProgressModel)
    requires
        m.wf(),
    ensures
        m.has_next() ==> m.after_next_level().level == m.level + 1
            && !m.after_next_level().game_complete,
        !m.has_next() ==> m.after_next_level().level == m.level
            && m.after_next_level().game_complete,
{
}

/// A tick keeps a progression well formed, keeps its levels, never moves
/// the level index back, and moves it on by one level at most. After a
/// tick nothing is owed: the game is playing or complete.
pub proof fn lemma_tick_keeps_wf(m: ProgressModel, kinds: Seq<ItemKind>)
    requires
        m.wf(),
    ensures
        m.after_deliveries(kinds).wf(),
        m.after_deliveries(kinds).templates == m.templates,
        m.after_deliveries(kinds).level == m.level,
        m.after_tick(kinds).wf(),
        m.after_tick(kinds).templates == m.templates,
        m.level <= m.after_tick(kinds).level <= m.level + 1,
        !m.after_tick(kinds).reset_owed,
        !m.after_tick(kinds).advance_owed(),
        m.after_tick(kinds).phase() == Phase::Playing || m.after_tick(kinds).phase()
            == Phase::GameComplete,
    decreases kinds.len(),
{
    if kinds.len() > 0 {
        lemma_tick_keeps_wf(m, kinds.drop_last());
        lemma_transitions_keep_wf(m.after_deliveries(kinds.drop_last()), kinds.last());
    }
    let d = m.after_deliveries(kinds);
    lemma_transitions_keep_wf(d, ItemKind::Cube);
    lemma_transitions_keep_wf(d.advanced(), ItemKind::Cube);
}

/// A completed game is final: no event changes it, and it asks for nothing.
pub proof fn lemma_game_complete_is_final(m: ProgressModel, kinds: Seq<ItemKind>)
    requires
        m.wf(),
        m.game_complete,
    ensures
        forall|k: ItemKind| m.after_delivery(k) == m && m.outcome(k).is_none(),
        m.after_next_level() == m,
        m.after_reset() == m,
        m.after_restart_request() == m,
        m.after_deliveries(kinds) == m,
        m.after_tick(kinds) == m,
        m.tick_requests(kinds) == Seq::<Request>::empty(),
    decreases kinds.len(),
{
    if kinds.len() > 0 {
        lemma_game_complete_is_final(m, kinds.drop_last());
    }
    assert(m.tick_requests(kinds) =~= Seq::<Request>::empty());
}

/// Where deliveries are not judged (before the first reset, on a complete
/// recipe, in a completed game) they change nothing and ask for nothing,
/// however many arrive.
pub proof fn lemma_unjudged_deliveries_change_nothing(m: ProgressModel, kinds: Seq<ItemKind>)
    requires
        !m.judges(),
    ensures
        m.after_deliveries(kinds) == m,
        m.requests_of_deliveries(kinds) == Seq::<Request>::empty(),
    decreases kinds.len(),
{
    if kinds.len() > 0 {
        lemma_unjudged_deliveries_change_nothing(m, kinds.drop_last());
    }
    assert(m.requests_of_deliveries(kinds) =~= Seq::<Request>::empty());
}

/// That a reset is owed does not stop the judging: after a rejected
/// delivery the next one gets the verdict of the same recipe.
pub proof fn lemma_rejection_does_not_stop_judging(m: ProgressModel, kind: ItemKind, next: ItemKind)
    requires
        m.judges(),
        m.recipe.next_expected() != Some(kind),
    ensures
        m.outcome(kind) == Some(Outcome::Rejected),
        m.after_delivery(kind).reset_owed,
        m.after_delivery(kind).recipe == m.recipe,
        m.after_delivery(kind).outcome(next) == Some(m.recipe.verdict(next)),
{
}

/// Every delivery of a kind other than the expected one is rejected, each
/// with its own negative effect and its own reset signal, however many
/// arrive in a row. The recipe stays as it was and a reset is owed.
pub proof fn lemma_each_wrong_delivery_is_rejected(m: ProgressModel, kinds: Seq<ItemKind>)
    requires
        m.judges(),
        forall|i: int| 0 <= i < kinds.len() ==> m.recipe.next_expected() != Some(#[trigger] kinds[i]),
    ensures
        m.after_deliveries(kinds) == (ProgressModel {
            reset_owed: m.reset_owed || kinds.len() > 0,
            ..m
        }),
        forall|i: int|
            0 <= i < kinds.len() ==> {
                &&& m.after_deliveries(kinds.take(i)).outcome(#[trigger] kinds[i]) == Some(
                    Outcome::Rejected,
                )
                &&& reaction_to(Some(Outcome::Rejected)).signal == Some(Signal::ResetLevel)
                &&& reaction_to(Some(Outcome::Rejected)).effect == Some(Effect::Negative)
            },
        m.requests_of_deliveries(kinds) == Seq::new(
            kinds.len(),
            |i: int| Request::Effect(Effect::Negative),
        ),
    decreases kinds.len(),
{
    if kinds.len() > 0 {
        let shorter = kinds.drop_last();
        lemma_each_wrong_delivery_is_rejected(m, shorter);
        assert forall|i: int| 0 <= i < kinds.len() implies m.after_deliveries(
            kinds.take(i),
        ).outcome(#[trigger] kinds[i]) == Some(Outcome::Rejected) by {
            if i < shorter.len() {
                assert(kinds.take(i) =~= shorter.take(i));
                assert(kinds[i] == shorter[i]);
            } else {
                assert(kinds.take(i) =~= shorter);
            }
        }
        assert(m.requests_of_deliveries(kinds) =~= Seq::new(
            kinds.len(),
            |i: int| Request::Effect(Effect::Negative),
        ));
    } else {
        assert(m.requests_of_deliveries(kinds) =~= Seq::new(
            kinds.len(),
            |i: int| Request::Effect(Effect::Negative),
        ));
    }
}

/// Where deliveries are judged, the first `n` of the kinds that the recipe
/// still expects, delivered in order, are all accepted: the cursor moves on
/// by `n` and nothing else changes.
pub proof fn lemma_expected_kinds_advance(m: ProgressModel, n: nat)
    requires
        m.wf(),
        m.judges(),
        n <= m.recipe.items.len() - m.recipe.cursor,
    ensures
        m.after_deliveries(
            m.recipe.items.subrange(m.recipe.cursor as int, m.recipe.cursor as int + n),
        ) == (ProgressModel {
            recipe: RecipeModel { items: m.recipe.items, cursor: m.recipe.cursor + n },
            ..m
        }),
    decreases n,
{
    let c = m.recipe.cursor as int;
    let kinds = m.recipe.items.subrange(c, c + n);
    if n > 0 {
        assert(kinds.drop_last() =~= m.recipe.items.subrange(c, c + n - 1));
        lemma_expected_kinds_advance(m, (n - 1) as nat);
        assert(kinds.last() == m.recipe.items[c + n - 1]);
    }
}

/// Completing the recipe of a level that has a successor leads, within the
/// tick, to the next level: its recipe is fresh and nothing is owed. The
/// last requests of the tick are those of the reset that starts it.
pub proof fn lemma_completed_level_advances(m: ProgressModel)
    requires
        m.wf(),
        m.judges(),
        m.has_next(),
    ensures
        ({
            let rest = m.recipe.items.subrange(
                m.recipe.cursor as int,
                m.recipe.items.len() as int,
            );
            &&& m.after_tick(rest) == (ProgressModel {
                level: m.level + 1,
                recipe: RecipeModel::fresh(m.templates[m.level as int + 1]),
                reset_owed: false,
                ..m
            })
            &&& m.after_deliveries(rest).settle_requests() == reset_requests(m.level + 1)
        }),
{
    lemma_expected_kinds_advance(m, (m.recipe.items.len() - m.recipe.cursor) as nat);
}

/// Completing the recipe of the last level ends the game: nothing is reset
/// and nothing is put into the world, even where a reset was owed.
pub proof fn lemma_last_level_ends_game(m: ProgressModel)
    requires
        m.wf(),
        m.judges(),
        !m.has_next(),
    ensures
        ({
            let rest = m.recipe.items.subrange(
                m.recipe.cursor as int,
                m.recipe.items.len() as int,
            );
            &&& m.after_tick(rest).game_complete
            &&& m.after_tick(rest).phase() == Phase::GameComplete
            &&& m.after_tick(rest).level == m.level
            &&& m.after_tick(rest).recipe.is_complete()
            &&& m.after_deliveries(rest).settle_requests() == Seq::<Request>::empty()
        }),
{
    lemma_expected_kinds_advance(m, (m.recipe.items.len() - m.recipe.cursor) as nat);
}

/// A delivery of any kind but the expected one leads within the tick to a
/// fresh attempt at the same level: a negative effect, then the requests
/// of the reset.
pub proof fn lemma_wrong_delivery_resets(m: ProgressModel, kind: ItemKind)
    requires
        m.wf(),
        m.judges(),
        m.recipe.next_expected() != Some(kind),
    ensures
        m.outcome(kind) == Some(Outcome::Rejected),
        m.after_delivery(kind).recipe == m.recipe,
        m.after_tick(seq![kind]) == (ProgressModel {
            recipe: RecipeModel::fresh(m.templates[m.level as int]),
            reset_owed: false,
            ..m
        }),
        m.tick_requests(seq![kind]) == seq![Request::Effect(Effect::Negative)] + reset_requests(
            m.level,
        ),
{
    let one = seq![kind];
    assert(one.drop_last() =~= Seq::<ItemKind>::empty());
    assert(m.after_deliveries(one.drop_last()) == m);
    assert(m.requests_of_deliveries(one.drop_last()) =~= Seq::<Request>::empty());
    assert(m.delivery_requests(kind) =~= seq![Request::Effect(Effect::Negative)]);
    assert(m.requests_of_deliveries(one) =~= seq![Request::Effect(Effect::Negative)]);
}

/// A request to draw the display again names the recipe as it stands right
/// after the event that made it: after an accepted delivery the cursor of
/// the recipe one step on, after a reset the cursor of a fresh recipe. The
/// icons before that index, and only those, are marked done.
pub proof fn lemma_refresh_shows_cursor(m: ProgressModel, kind: ItemKind, i: int)
    requires
        m.wf(),
        0 <= i < m.recipe.items.len(),
    ensures
        m.outcome(kind) matches Some(Outcome::Accepted { .. }) ==> {
            &&& m.delivery_requests(kind).last() == (Request::RefreshDisplay {
                level: m.after_delivery(kind).level as usize,
                next_index: m.after_delivery(kind).recipe.cursor as usize,
            })
            &&& (m.after_delivery(kind).recipe.display()[i].done <==> i < m.after_delivery(
                kind,
            ).recipe.cursor)
        },
        !m.game_complete ==> {
            &&& m.reset_level_requests().last() == (Request::RefreshDisplay {
                level: m.after_reset().level as usize,
                next_index: m.after_reset().recipe.cursor as usize,
            })
            &&& !m.after_reset().recipe.display()[i].done
        },
{
}

/// Of two runs of requests one after the other, the display to draw is
/// that of the second run where it asks for one, else that of the first.
pub proof fn lemma_last_refresh_of_two_runs(first: Seq<Request>, second: Seq<Request>)
    ensures
        last_refresh(first + second) == (match last_refresh(second) {
            Some(order) => Some(order),
            None => last_refresh(first),
        }),
    decreases second.len(),
{
    if second.len() == 0 {
        assert(first + second =~= first);
    } else {
        assert((first + second).drop_last() =~= first + second.drop_last());
        assert((first + second).last() == second.last());
        lemma_last_refresh_of_two_runs(first, second.drop_last());
    }
}

/// The display that the requests of a tick leave to draw is the recipe as
/// the tick leaves it: the current level, and the cursor of the live
/// recipe.
pub proof fn lemma_last_refresh_shows_the_end(m: ProgressModel, kinds: Seq<ItemKind>)
    requires
        m.wf(),
    ensures
        last_refresh(m.requests_of_deliveries(kinds)) matches Some(order) ==> order.0
            == m.after_deliveries(kinds).level as usize && order.1 == m.after_deliveries(
            kinds,
        ).recipe.cursor as usize,
        last_refresh(m.tick_requests(kinds)) matches Some(order) ==> order.0 == m.after_tick(
            kinds,
        ).level as usize && order.1 == m.after_tick(kinds).recipe.cursor as usize,
    decreases kinds.len(),
{
    lemma_tick_keeps_wf(m, kinds);
    if kinds.len() > 0 {
        let before = m.after_deliveries(kinds.drop_last());
        lemma_last_refresh_shows_the_end(m, kinds.drop_last());
        lemma_tick_keeps_wf(m, kinds.drop_last());
        lemma_last_refresh_of_two_runs(
            m.requests_of_deliveries(kinds.drop_last()),
            before.delivery_requests(kinds.last()),
        );
        let made = before.delivery_requests(kinds.last());
        if made.len() == 2 {
            assert(made.last() == made[1]);
        } else if made.len() == 1 {
            assert(made.drop_last() =~= Seq::<Request>::empty());
            assert(last_refresh(made.drop_last()).is_none());
        }
    }
    let d = m.after_deliveries(kinds);
    let settle = d.settle_requests();
    lemma_last_refresh_of_two_runs(m.requests_of_deliveries(kinds), settle);
    if settle.len() > 0 {
        assert(settle.last() == settle[2]);
    }
}

} // verus!
