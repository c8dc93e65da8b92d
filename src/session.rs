//! One run of the game: the entity store, the score ledger, the fade, the
//! trophies, the storyline and the state machine, advanced frame by frame.

use vstd::prelude::*;
use crate::geometry::{Position, MoveInput, collides, collision, moved, ball_movement};
use crate::thingy::{
    Thingy, CollisionEvent, FULL_ALPHA, ALPHA_STEP, FADE_AFTER_SCORE, in_spawn_area, faded,
    faded_after, random_spawn_position,
};
use crate::trophy::{
    Trophy, standard_trophies, standard_trophy_records, all_checked, newly_unlocked,
    update_trophy_colors,
};
use crate::storyline::{StoryLine, StoryLines, shown_text, has_line_at, storyline_at};

verus! {

/// The score that ends a standard run.
pub const GAME_OVER_SCORE: i32 = 201;

/// How far above its collectible the storyline text is drawn.
pub const STORYLINE_OFFSET: i32 = 15;

/// The leading text of the score label during a run.
pub const SCORE_CAPTION: &'static str = "Score: ";

/// The leading text of the score label once the run is over.
pub const SUMMARY_CAPTION: &'static str = "Kills:";

/// A line of the closing screen and where it stands, in pixels from the
/// top and left edges of the window.
#[derive(Clone, Copy, Debug)]
pub struct ClosingLine {
    pub text: &'static str,
    pub top: u32,
    pub left: u32,
}

/// The closing screen, in order.
pub open spec fn closing_script() -> Seq<ClosingLine> {
    seq![
        ClosingLine { text: "EVEN THE SMALLEST action", top: 100, left: 50 },
        ClosingLine { text: "HAS A reaction.", top: 150, left: 270 },
        ClosingLine { text: "SOMETIMES IT'S GOOD TO JUST", top: 250, left: 50 },
        ClosingLine { text: "STOP AND THINK WHAT EFFECT", top: 300, left: 80 },
        ClosingLine { text: "YOUR CURRENT ACTIONS HAVE.", top: 350, left: 100 },
        ClosingLine { text: "THANK YOU FOR PLAYING.", top: 500, left: 50 },
    ]
}

/// The lines shown when the run is over.
pub fn closing_lines() -> (r: Vec<ClosingLine>)
    ensures
        r@ == closing_script(),
{
    vec![
        ClosingLine { text: "EVEN THE SMALLEST action", top: 100, left: 50 },
        ClosingLine { text: "HAS A reaction.", top: 150, left: 270 },
        ClosingLine { text: "SOMETIMES IT'S GOOD TO JUST", top: 250, left: 50 },
        ClosingLine { text: "STOP AND THINK WHAT EFFECT", top: 300, left: 80 },
        ClosingLine { text: "YOUR CURRENT ACTIONS HAVE.", top: 350, left: 100 },
        ClosingLine { text: "THANK YOU FOR PLAYING.", top: 500, left: 50 },
    ]
}

/// The lifecycle of a run.
#[derive(Clone, Copy, Debug, PartialEq, Eq, Structural)]
pub enum GameState {
    InGame,
    GameOver,
}

/// The storyline text element: what it shows and where.
#[derive(Clone, Debug)]
pub struct StoryText {
    pub text: String,
    pub anchor: Position,
}

/// The state of one run.
pub struct GameSession {
    score: i32,
    terminal_score: i32,
    alpha: u32,
    state: GameState,
    ball: Option<Position>,
    thingies: Vec<Thingy>,
    next_id: u64,
    trophies: Vec<Trophy>,
    storyline: Option<StoryText>,
}

/// The abstract state of a run.
pub struct SessionView {
    pub score: int,
    pub terminal_score: int,
    /// Opacity of new collectibles, in hundredths.
    pub alpha: int,
    pub state: GameState,
    pub ball: Option<Position>,
    pub thingies: Seq<Thingy>,
    /// The identity the next collectible gets.
    pub next_id: int,
    pub trophies: Seq<Trophy>,
    /// The storyline element's text and anchor; gone once the run is over.
    pub storyline: Option<(Seq<char>, Position)>,
}

impl SessionView {
    /// What holds of every run.
    pub open spec fn wf(self) -> bool {
        &&& 0 <= self.score <= i32::MAX
        &&& i32::MIN <= self.terminal_score <= i32::MAX
        &&& 0 <= self.alpha <= FULL_ALPHA
        &&& 0 <= self.next_id <= u64::MAX
        &&& forall|i: int| 0 <= i < self.thingies.len() ==> in_spawn_area(#[trigger] self.thingies[i].pos)
        &&& forall|i: int| 0 <= i < self.thingies.len() ==> #[trigger] self.thingies[i].id < self.next_id
        &&& forall|i: int, j: int| 0 <= i < j < self.thingies.len()
            ==> #[trigger] self.thingies[i].id != #[trigger] self.thingies[j].id
        &&& self.state is InGame ==> self.ball is Some && self.storyline is Some
        &&& self.state is GameOver ==> {
            &&& self.ball is None
            &&& self.thingies.len() == 0
            &&& self.storyline is None
        }
    }

    /// The view after one collision is consumed: the score goes up by one,
    /// the opacity fades by the new score, and a collectible appears at
    /// `pos`.
    pub open spec fn after_collision(self, pos: Position) -> SessionView {
        SessionView {
            score: self.score + 1,
            alpha: faded(self.alpha, self.score + 1),
            ..self
        }.with_thingy(pos)
    }

    /// `after` is this view with `n` collisions consumed, the new
    /// collectibles anywhere in the spawn area.
    pub open spec fn collided_into(self, after: SessionView, n: nat) -> bool {
        &&& after.score == self.score + n
        &&& after.alpha == faded_after(self.alpha, self.score, n)
        &&& after.next_id == self.next_id + n
        &&& after.thingies.len() == self.thingies.len() + n
        &&& after.thingies.take(self.thingies.len() as int) == self.thingies
        &&& forall|j: int| 0 <= j < n ==> {
            &&& (#[trigger] after.thingies[self.thingies.len() + j]).id == self.next_id + j
            &&& after.thingies[self.thingies.len() + j].alpha == faded_after(self.alpha, self.score, (j + 1) as nat)
            &&& in_spawn_area(after.thingies[self.thingies.len() + j].pos)
        }
        &&& after.terminal_score == self.terminal_score
        &&& after.state == self.state
        &&& after.ball == self.ball
        &&& after.trophies == self.trophies
        &&& after.storyline == self.storyline
    }

    /// The view once the run is over: no ball, no collectible, no storyline.
    pub open spec fn finished(self) -> SessionView {
        SessionView {
            state: GameState::GameOver,
            ball: None,
            thingies: Seq::empty(),
            storyline: None,
            ..self
        }
    }

    /// The view after a collectible is added at `pos`.
    pub open spec fn with_thingy(self, pos: Position) -> SessionView {
        SessionView {
            thingies: self.thingies.push(Thingy { id: self.next_id as u64, pos, alpha: self.alpha as u32 }),
            next_id: self.next_id + 1,
            ..self
        }
    }
}

/// The collectibles of `ts` that the ball at `ball` does not touch, in order.
pub open spec fn survivors(ball: Position, ts: Seq<Thingy>) -> Seq<Thingy>
    decreases ts.len(),
{
    if ts.len() == 0 {
        Seq::empty()
    } else {
        let rest = survivors(ball, ts.drop_last());
        if collides(ball, ts.last().pos) {
            rest
        } else {
            rest.push(ts.last())
        }
    }
}

/// One event for each collectible of `ts` that the ball at `ball` touches,
/// in order.
pub open spec fn hits(ball: Position, ts: Seq<Thingy>) -> Seq<CollisionEvent>
    decreases ts.len(),
{
    if ts.len() == 0 {
        Seq::empty()
    } else {
        let rest = hits(ball, ts.drop_last());
        if collides(ball, ts.last().pos) {
            rest.push(CollisionEvent(ts.last().id))
        } else {
            rest
        }
    }
}

/// Each collectible either survives or is hit.
pub proof fn lemma_hits_survivors_len(ball: Position, ts: Seq<Thingy>)
    ensures
        hits(ball, ts).len() + survivors(ball, ts).len() == ts.len(),
    decreases ts.len(),
{
    if ts.len() > 0 {
        lemma_hits_survivors_len(ball, ts.drop_last());
    }
}

/// Every collectible that survives was there before.
pub proof fn lemma_survivors_from(ball: Position, ts: Seq<Thingy>)
    ensures
        survivors(ball, ts).len() <= ts.len(),
        forall|k: int| 0 <= k < survivors(ball, ts).len()
            ==> exists|i: int| 0 <= i < ts.len() && #[trigger] survivors(ball, ts)[k] == ts[i],
    decreases ts.len(),
{
    if ts.len() > 0 {
        let rest = ts.drop_last();
        lemma_survivors_from(ball, rest);
        assert forall|k: int| 0 <= k < survivors(ball, ts).len()
            implies exists|i: int| 0 <= i < ts.len() && #[trigger] survivors(ball, ts)[k] == ts[i] by {
            if k < survivors(ball, rest).len() {
                let i = choose|i: int| 0 <= i < rest.len() && survivors(ball, rest)[k] == rest[i];
                assert(survivors(ball, ts)[k] == ts[i]);
            } else {
                assert(survivors(ball, ts)[k] == ts[ts.len() - 1]);
            }
        }
    }
}

/// Survivors keep distinct identities.
pub proof fn lemma_survivors_distinct(ball: Position, ts: Seq<Thingy>)
    requires
        forall|i: int, j: int| 0 <= i < j < ts.len() ==> #[trigger] ts[i].id != #[trigger] ts[j].id,
    ensures
        forall|i: int, j: int| 0 <= i < j < survivors(ball, ts).len()
            ==> #[trigger] survivors(ball, ts)[i].id != #[trigger] survivors(ball, ts)[j].id,
    decreases ts.len(),
{
    if ts.len() > 0 {
        let rest = ts.drop_last();
        assert forall|i: int, j: int| 0 <= i < j < rest.len() implies #[trigger] rest[i].id
            != #[trigger] rest[j].id by {
            assert(rest[i] == ts[i] && rest[j] == ts[j]);
        }
        lemma_survivors_distinct(ball, rest);
        lemma_survivors_from(ball, rest);
        let sv = survivors(ball, ts);
        let sr = survivors(ball, rest);
        assert forall|i: int, j: int| 0 <= i < j < sv.len() implies #[trigger] sv[i].id
            != #[trigger] sv[j].id by {
            if j >= sr.len() {
                let k = choose|k: int| 0 <= k < rest.len() && sr[i] == rest[k];
                assert(sv[i] == ts[k]);
                assert(sv[j] == ts[ts.len() - 1]);
            } else {
                assert(sv[i] == sr[i] && sv[j] == sr[j]);
            }
        }
    }
}

/// Where a jump takes the ball: onto the collectible, when exactly one is
/// live.
pub open spec fn jump_target(ts: Seq<Thingy>) -> Option<Position> {
    if ts.len() == 1 {
        Some(ts[0].pos)
    } else {
        None
    }
}

/// The records of a storyline list; none while it has not been loaded.
pub open spec fn lines_of(lines: Option<&StoryLines>) -> Seq<StoryLine> {
    match lines {
        Some(l) => l.storylines@,
        None => Seq::empty(),
    }
}

/// The point the storyline text is anchored to above a collectible at `p`.
pub open spec fn above(p: Position) -> Position {
    Position { x: p.x, y: (p.y + STORYLINE_OFFSET) as i32 }
}

/// The storyline element after a check at `score`: it shows the text bound
/// to the score, and moves above the last live collectible when a line is
/// bound to it.
pub open spec fn refreshed(
    st: Option<(Seq<char>, Position)>,
    lines: Seq<StoryLine>,
    score: int,
    ts: Seq<Thingy>,
) -> Option<(Seq<char>, Position)> {
    match st {
        Some((_, anchor)) => Some(
            (
                shown_text(lines, score),
                if has_line_at(lines, score) && ts.len() > 0 {
                    above(ts.last().pos)
                } else {
                    anchor
                },
            ),
        ),
        None => None,
    }
}

/// The state after the check at the end of a frame: a running game is over
/// exactly when its score equals the terminal score.
pub open spec fn next_state(state: GameState, score: int, terminal_score: int) -> GameState {
    if state is InGame && score == terminal_score {
        GameState::GameOver
    } else {
        state
    }
}

/// The state after the end-of-frame check at each score of `scores` in
/// turn.
pub open spec fn state_after(state: GameState, scores: Seq<int>, terminal_score: int) -> GameState
    decreases scores.len(),
{
    if scores.len() == 0 {
        state
    } else {
        next_state(state_after(state, scores.drop_last(), terminal_score), scores.last(), terminal_score)
    }
}

/// A run that starts in game is over after a sequence of frames exactly
/// when one of them ended at the terminal score; a score that jumps over
/// it leaves the game running.
pub proof fn lemma_game_over_iff_terminal_reached(scores: Seq<int>, terminal_score: int)
    ensures
        state_after(GameState::InGame, scores, terminal_score) is GameOver
            <==> exists|j: int| 0 <= j < scores.len() && scores[j] == terminal_score,
    decreases scores.len(),
{
    if scores.len() > 0 {
        let earlier = scores.drop_last();
        lemma_game_over_iff_terminal_reached(earlier, terminal_score);
        if exists|j: int| 0 <= j < scores.len() && scores[j] == terminal_score {
            let j = choose|j: int| 0 <= j < scores.len() && scores[j] == terminal_score;
            if j < earlier.len() {
                assert(earlier[j] == scores[j]);
            }
        }
        if exists|j: int| 0 <= j < earlier.len() && earlier[j] == terminal_score {
            let j = choose|j: int| 0 <= j < earlier.len() && earlier[j] == terminal_score;
            assert(scores[j] == earlier[j]);
        }
    }
}

/// The sum of `s`.
pub open spec fn total(s: Seq<nat>) -> int
    decreases s.len(),
{
    if s.len() == 0 {
        0
    } else {
        total(s.drop_last()) + s.last()
    }
}

/// One frame took the score from `before` to `after` by consuming
/// `consumed` collisions.
pub open spec fn frame_scored(before: SessionView, after: SessionView, consumed: nat) -> bool {
    after.score == before.score + consumed
}

/// Over any sequence of frames the score never goes down, and between two
/// frames it goes up by exactly the number of collisions consumed in
/// between.
pub proof fn lemma_score_accumulates(views: Seq<SessionView>, consumed: Seq<nat>)
    requires
        views.len() == consumed.len() + 1,
        forall|i: int| 0 <= i < consumed.len() ==> frame_scored(views[i], views[i + 1], #[trigger] consumed[i]),
    ensures
        forall|i: int, j: int| 0 <= i <= j < views.len() ==> {
            &&& #[trigger] views[i].score <= #[trigger] views[j].score
            &&& views[j].score - views[i].score == total(consumed.subrange(i, j))
        },
{
    assert forall|i: int, j: int| 0 <= i <= j < views.len() implies {
        &&& #[trigger] views[i].score <= #[trigger] views[j].score
        &&& views[j].score - views[i].score == total(consumed.subrange(i, j))
    } by {
        lemma_score_span(views, consumed, i, j);
    }
}

proof fn lemma_score_span(views: Seq<SessionView>, consumed: Seq<nat>, i: int, j: int)
    requires
        views.len() == consumed.len() + 1,
        forall|k: int| 0 <= k < consumed.len() ==> frame_scored(views[k], views[k + 1], #[trigger] consumed[k]),
        0 <= i <= j < views.len(),
    ensures
        views[i].score <= views[j].score,
        views[j].score - views[i].score == total(consumed.subrange(i, j)),
    decreases j - i,
{
    if j > i {
        lemma_score_span(views, consumed, i, j - 1);
        assert(consumed.subrange(i, j).drop_last() == consumed.subrange(i, j - 1));
        assert(frame_scored(views[j - 1], views[j], consumed[j - 1]));
    } else {
        assert(consumed.subrange(i, j).len() == 0);
    }
}

/// What a frame did, for the renderer: the collectibles collected, the
/// trophies unlocked, and whether the run just ended.
pub struct FrameOutcome {
    pub collisions: Vec<CollisionEvent>,
    pub unlocked: Vec<usize>,
    pub game_over: bool,
}

impl View for GameSession {
    type V = SessionView;

    closed spec fn view(&self) -> SessionView {
        SessionView {
            score: self.score as int,
            terminal_score: self.terminal_score as int,
            alpha: self.alpha as int,
            state: self.state,
            ball: self.ball,
            thingies: self.thingies@,
            next_id: self.next_id as int,
            trophies: self.trophies@,
            storyline: match self.storyline {
                Some(st) => Some((st.text@, st.anchor)),
                None => None,
            },
        }
    }
}

/// Adds a collectible at a random place in the spawn area, with the run's
/// current opacity and the next identity; a finished run is left as it is.
pub fn spawn_thingy(session: &mut GameSession)
    requires
        old(session)@.wf(),
        old(session)@.next_id < u64::MAX,
    ensures
        final(session)@.wf(),
        old(session)@.state is GameOver ==> final(session)@ == old(session)@,
        old(session)@.state is InGame ==> exists|p: Position|
            in_spawn_area(p) && final(session)@ == old(session)@.with_thingy(p),
{
    let p = random_spawn_position();
    session.spawn_thingy_at(p);
}

impl GameSession {
    pub open spec fn wf(&self) -> bool {
        self@.wf()
    }

    /// A run at score zero with the ball at the origin, the given trophies,
    /// a blank storyline and no collectible yet.
    pub fn empty(terminal_score: i32, trophies: Vec<Trophy>) -> (s: GameSession)
        ensures
            s@.wf(),
            s@ == GameSession::empty_view(terminal_score, trophies@),
    {
        GameSession {
            score: 0,
            terminal_score,
            alpha: FULL_ALPHA,
            state: GameState::InGame,
            ball: Some(Position { x: 0, y: 0 }),
            thingies: Vec::new(),
            next_id: 0,
            trophies,
            storyline: Some(StoryText { text: String::new(), anchor: Position { x: 0, y: 0 } }),
        }
    }

    /// A run that starts with one collectible, at a random place.
    pub fn new(terminal_score: i32, trophies: Vec<Trophy>) -> (s: GameSession)
        ensures
            s@.wf(),
            exists|p: Position| in_spawn_area(p) && s@ == GameSession::empty_view(terminal_score, trophies@).with_thingy(p),
    {
        let mut s = GameSession::empty(terminal_score, trophies);
        spawn_thingy(&mut s);
        s
    }

    /// A standard run: it ends at 201, with trophies at 10, 50 and 110.
    pub fn standard() -> (s: GameSession)
        ensures
            s@.wf(),
            exists|p: Position| in_spawn_area(p) && s@ == GameSession::empty_view(GAME_OVER_SCORE, standard_trophy_records()).with_thingy(p),
    {
        GameSession::new(GAME_OVER_SCORE, standard_trophies())
    }

    /// The view of `empty(terminal_score, trophies)`.
    pub open spec fn empty_view(terminal_score: i32, trophies: Seq<Trophy>) -> SessionView {
        SessionView {
            score: 0,
            terminal_score: terminal_score as int,
            alpha: FULL_ALPHA as int,
            state: GameState::InGame,
            ball: Some(Position { x: 0, y: 0 }),
            thingies: Seq::empty(),
            next_id: 0,
            trophies: trophies,
            storyline: Some((Seq::empty(), Position { x: 0, y: 0 })),
        }
    }

    /// The score.
    pub fn score(&self) -> (r: i32)
        ensures
            r == self@.score,
    {
        self.score
    }

    /// The score that ends the run.
    pub fn terminal_score(&self) -> (r: i32)
        ensures
            r == self@.terminal_score,
    {
        self.terminal_score
    }

    /// The opacity of new collectibles, in hundredths.
    pub fn alpha(&self) -> (r: u32)
        ensures
            r == self@.alpha,
    {
        self.alpha
    }

    /// Whether the run is still going.
    pub fn state(&self) -> (r: GameState)
        ensures
            r == self@.state,
    {
        self.state
    }

    /// Where the ball is; a finished run has none.
    pub fn ball(&self) -> (r: Option<Position>)
        ensures
            r == self@.ball,
    {
        self.ball
    }

    /// The live collectibles.
    pub fn thingies(&self) -> (r: &Vec<Thingy>)
        ensures
            r@ == self@.thingies,
    {
        &self.thingies
    }

    /// The identity the next collectible will get.
    pub fn next_id(&self) -> (r: u64)
        ensures
            r == self@.next_id,
    {
        self.next_id
    }

    /// The trophies, in order.
    pub fn trophies(&self) -> (r: &Vec<Trophy>)
        ensures
            r@ == self@.trophies,
    {
        &self.trophies
    }

    /// The storyline text element; a finished run has none.
    pub fn storyline(&self) -> (r: Option<&StoryText>)
        ensures
            r matches Some(st) ==> self@.storyline == Some((st.text@, st.anchor)),
            r is None ==> self@.storyline is None,
    {
        self.storyline.as_ref()
    }

    /// The leading text of the score label: the summary caption once the
    /// run is over.
    pub fn score_caption(&self) -> (r: &'static str)
        ensures
            self@.state is InGame ==> r@ == SCORE_CAPTION@,
            self@.state is GameOver ==> r@ == SUMMARY_CAPTION@,
    {
        match self.state {
            GameState::InGame => SCORE_CAPTION,
            GameState::GameOver => SUMMARY_CAPTION,
        }
    }

    /// Adds a collectible at `pos` with the run's current opacity and the
    /// next identity; a finished run is left as it is.
    pub fn spawn_thingy_at(&mut self, pos: Position)
        requires
            old(self)@.wf(),
            old(self)@.next_id < u64::MAX,
            in_spawn_area(pos),
        ensures
            final(self)@.wf(),
            old(self)@.state is GameOver ==> final(self)@ == old(self)@,
            old(self)@.state is InGame ==> final(self)@ == old(self)@.with_thingy(pos),
    {
        if self.state == GameState::GameOver {
            return;
        }
        let t = Thingy { id: self.next_id, pos, alpha: self.alpha };
        self.thingies.push(t);
        self.next_id = self.next_id + 1;
    }

    /// Moves the ball by one frame of `input`; a jump lands on the live
    /// collectible when there is exactly one. A finished run has no ball.
    pub fn move_ball(&mut self, input: MoveInput)
        requires
            old(self)@.wf(),
        ensures
            final(self)@.wf(),
            final(self)@ == (SessionView {
                ball: match old(self)@.ball {
                    Some(b) => Some(moved(b, input, jump_target(old(self)@.thingies))),
                    None => None,
                },
                ..old(self)@
            }),
    {
        if let Some(b) = self.ball {
            let target = if self.thingies.len() == 1 {
                Some(self.thingies[0].pos)
            } else {
                None
            };
            self.ball = Some(ball_movement(b, input, target));
        }
    }

    /// Removes every collectible that the ball touches and returns one event
    /// for each, in order.
    pub fn ball_collide(&mut self) -> (events: Vec<CollisionEvent>)
        requires
            old(self)@.wf(),
        ensures
            final(self)@.wf(),
            old(self)@.ball is None ==> final(self)@ == old(self)@ && events@.len() == 0,
            old(self)@.ball matches Some(b) ==> {
                &&& events@ == hits(b, old(self)@.thingies)
                &&& final(self)@ == (SessionView { thingies: survivors(b, old(self)@.thingies), ..old(self)@ })
            },
    {
        let b = match self.ball {
            Some(b) => b,
            None => {
                return Vec::new();
            },
        };
        let ghost before = self.thingies@;
        let mut kept: Vec<Thingy> = Vec::new();
        let mut events: Vec<CollisionEvent> = Vec::new();
        let mut i: usize = 0;
        while i < self.thingies.len()
            invariant
                0 <= i <= self.thingies.len(),
                self.thingies@ == before,
                kept@ == survivors(b, before.take(i as int)),
                events@ == hits(b, before.take(i as int)),
            decreases self.thingies.len() - i,
        {
            let t = self.thingies[i];
            assert(before.take(i + 1).drop_last() == before.take(i as int));
            if collision(b, t.pos) {
                events.push(CollisionEvent(t.id));
            } else {
                kept.push(t);
            }
            i = i + 1;
        }
        assert(before.take(before.len() as int) == before);
        proof {
            lemma_survivors_from(b, before);
            lemma_survivors_distinct(b, before);
            let sv = survivors(b, before);
            assert forall|k: int| 0 <= k < sv.len() implies in_spawn_area(#[trigger] sv[k].pos)
                && sv[k].id < self@.next_id by {
                let j = choose|j: int| 0 <= j < before.len() && sv[k] == before[j];
                assert(in_spawn_area(before[j].pos));
            }
        }
        self.thingies = kept;
        events
    }

    /// Consumes one collision: the score goes up by one, the opacity fades
    /// once the score is above the fade floor, and a collectible appears at
    /// `pos`. A finished run is left as it is.
    pub fn consume_collision_at(&mut self, pos: Position)
        requires
            old(self)@.wf(),
            old(self)@.score < i32::MAX,
            old(self)@.next_id < u64::MAX,
            in_spawn_area(pos),
        ensures
            final(self)@.wf(),
            old(self)@.state is GameOver ==> final(self)@ == old(self)@,
            old(self)@.state is InGame ==> final(self)@ == old(self)@.after_collision(pos),
    {
        if self.state == GameState::GameOver {
            return;
        }
        self.score = self.score + 1;
        if self.score > FADE_AFTER_SCORE {
            if self.alpha >= ALPHA_STEP {
                self.alpha = self.alpha - ALPHA_STEP;
            } else {
                self.alpha = 0;
            }
        }
        self.spawn_thingy_at(pos);
    }

    /// Consumes every event of the frame: one point and one new collectible,
    /// at a random place, for each. A finished run is left as it is.
    pub fn collision_spawn(&mut self, events: &Vec<CollisionEvent>)
        requires
            old(self)@.wf(),
            old(self)@.score + events@.len() <= i32::MAX,
            old(self)@.next_id + events@.len() <= u64::MAX,
        ensures
            final(self)@.wf(),
            old(self)@.state is GameOver ==> final(self)@ == old(self)@,
            old(self)@.state is InGame ==> old(self)@.collided_into(final(self)@, events@.len()),
    {
        if self.state == GameState::GameOver {
            return;
        }
        let ghost start = self@;
        assert(start.thingies.take(start.thingies.len() as int) == start.thingies);
        let mut i: usize = 0;
        while i < events.len()
            invariant
                0 <= i <= events.len(),
                self@.wf(),
                start.wf(),
                start.state is InGame,
                start.score + events@.len() <= i32::MAX,
                start.next_id + events@.len() <= u64::MAX,
                start.collided_into(self@, i as nat),
            decreases events.len() - i,
        {
            let pos = random_spawn_position();
            let ghost mid = self@;
            self.consume_collision_at(pos);
            proof {
                let n = start.thingies.len();
                assert(self@.thingies.take(n as int) == start.thingies) by {
                    assert(self@.thingies.take(n as int) == mid.thingies.take(n as int));
                }
                assert forall|j: int| 0 <= j < i + 1 implies {
                    &&& (#[trigger] self@.thingies[n + j]).id == start.next_id + j
                    &&& self@.thingies[n + j].alpha == faded_after(start.alpha, start.score, (j + 1) as nat)
                    &&& in_spawn_area(self@.thingies[n + j].pos)
                } by {
                    if j < i {
                        assert(self@.thingies[n + j] == mid.thingies[n + j]);
                    }
                }
            }
            i = i + 1;
        }
    }

    /// Unlocks the trophies that the score has reached and returns their
    /// indices. A finished run is left as it is.
    pub fn update_trophies(&mut self) -> (unlocked: Vec<usize>)
        requires
            old(self)@.wf(),
        ensures
            final(self)@.wf(),
            old(self)@.state is GameOver ==> final(self)@ == old(self)@ && unlocked@.len() == 0,
            old(self)@.state is InGame ==> {
                &&& final(self)@ == (SessionView {
                    trophies: all_checked(old(self)@.trophies, old(self)@.score),
                    ..old(self)@
                })
                &&& unlocked@.map_values(|i: usize| i as int) == newly_unlocked(
                    old(self)@.trophies,
                    old(self)@.score,
                )
            },
    {
        if self.state == GameState::GameOver {
            return Vec::new();
        }
        update_trophy_colors(&mut self.trophies, self.score)
    }

    /// Shows the storyline text bound to the current score, above the last
    /// live collectible, or clears it when none is bound or the lines have
    /// not been loaded. A finished run has no storyline.
    pub fn update_storyline(&mut self, lines: Option<&StoryLines>)
        requires
            old(self)@.wf(),
        ensures
            final(self)@.wf(),
            final(self)@ == (SessionView {
                storyline: refreshed(
                    old(self)@.storyline,
                    lines_of(lines),
                    old(self)@.score,
                    old(self)@.thingies,
                ),
                ..old(self)@
            }),
    {
        let anchor = match &self.storyline {
            Some(st) => st.anchor,
            None => {
                return;
            },
        };
        let found = match lines {
            Some(l) => storyline_at(l, self.score),
            None => None,
        };
        let n = self.thingies.len();
        let st = match found {
            Some(text) => {
                let anchor = if n > 0 {
                    let p = self.thingies[n - 1].pos;
                    Position { x: p.x, y: p.y + STORYLINE_OFFSET }
                } else {
                    anchor
                };
                StoryText { text, anchor }
            },
            None => StoryText { text: String::new(), anchor },
        };
        self.storyline = Some(st);
    }

    /// Ends the run when the score equals the terminal score: the ball, the
    /// collectibles and the storyline go. Returns whether it ended now.
    pub fn update_game_state(&mut self) -> (ended: bool)
        requires
            old(self)@.wf(),
        ensures
            final(self)@.wf(),
            ended == (old(self)@.state is InGame && old(self)@.score == old(self)@.terminal_score),
            final(self)@.state == next_state(old(self)@.state, old(self)@.score, old(self)@.terminal_score),
            ended ==> final(self)@ == old(self)@.finished(),
            !ended ==> final(self)@ == old(self)@,
    {
        if self.state == GameState::InGame && self.score == self.terminal_score {
            self.state = GameState::GameOver;
            self.ball = None;
            self.thingies = Vec::new();
            self.storyline = None;
            true
        } else {
            false
        }
    }

    /// Runs one frame: movement, collisions, score and respawns, trophies,
    /// storyline, and the end-of-run check, in that order. A finished run is
    /// left as it is.
    pub fn frame(&mut self, input: MoveInput, lines: Option<&StoryLines>) -> (out: FrameOutcome)
        requires
            old(self)@.wf(),
            old(self)@.score + old(self)@.thingies.len() <= i32::MAX,
            old(self)@.next_id + old(self)@.thingies.len() <= u64::MAX,
        ensures
            final(self)@.wf(),
            frame_scored(old(self)@, final(self)@, out.collisions@.len()),
            final(self)@.state == next_state(old(self)@.state, final(self)@.score, old(self)@.terminal_score),
            old(self)@.state is GameOver ==> {
                &&& final(self)@ == old(self)@
                &&& out.collisions@.len() == 0
                &&& out.unlocked@.len() == 0
                &&& !out.game_over
            },
            old(self)@.state is InGame ==> {
                let old_view = old(self)@;
                let b = moved(old_view.ball->0, input, jump_target(old_view.thingies));
                let kept = survivors(b, old_view.thingies);
                let n = out.collisions@.len();
                let score = old_view.score + n;
                &&& out.collisions@ == hits(b, old_view.thingies)
                &&& final(self)@.score == score
                &&& final(self)@.terminal_score == old_view.terminal_score
                &&& final(self)@.alpha == faded_after(old_view.alpha, old_view.score, n)
                &&& final(self)@.next_id == old_view.next_id + n
                &&& final(self)@.trophies == all_checked(old_view.trophies, score)
                &&& out.unlocked@.map_values(|i: usize| i as int) == newly_unlocked(old_view.trophies, score)
                &&& out.game_over == (score == old_view.terminal_score)
                &&& final(self)@.state == next_state(GameState::InGame, score, old_view.terminal_score)
                &&& out.game_over ==> {
                    &&& final(self)@.ball is None
                    &&& final(self)@.thingies.len() == 0
                    &&& final(self)@.storyline is None
                }
                &&& !out.game_over ==> {
                    &&& final(self)@.ball == Some(b)
                    &&& final(self)@.thingies.len() == kept.len() + n
                    &&& final(self)@.thingies.take(kept.len() as int) == kept
                    &&& forall|j: int| 0 <= j < n ==> {
                        &&& (#[trigger] final(self)@.thingies[kept.len() + j]).id == old_view.next_id + j
                        &&& final(self)@.thingies[kept.len() + j].alpha == faded_after(old_view.alpha, old_view.score, (j + 1) as nat)
                    }
                    &&& final(self)@.storyline == refreshed(
                        old_view.storyline,
                        lines_of(lines),
                        score,
                        final(self)@.thingies,
                    )
                }
            },
    {
        if self.state == GameState::GameOver {
            return FrameOutcome { collisions: Vec::new(), unlocked: Vec::new(), game_over: false };
        }
        self.move_ball(input);
        let ghost moved_view = self@;
        let collisions = self.ball_collide();
        proof {
            lemma_hits_survivors_len(self@.ball->0, moved_view.thingies);
        }
        self.collision_spawn(&collisions);
        let unlocked = self.update_trophies();
        self.update_storyline(lines);
        let game_over = self.update_game_state();
        FrameOutcome { collisions, unlocked, game_over }
    }
}

} // verus!
