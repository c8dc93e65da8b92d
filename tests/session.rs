use reaction::geometry::MoveInput;
use reaction::session::{closing_lines, spawn_thingy, GameSession, GameState, GAME_OVER_SCORE};
use reaction::storyline::{StoryLine, StoryLines};
use reaction::thingy::{CollisionEvent, FULL_ALPHA};
use reaction::trophy::standard_trophies;

fn jump() -> MoveInput {
    MoveInput { left: false, right: false, down: false, up: false, teleport: true }
}

fn idle() -> MoveInput {
    MoveInput { left: false, right: false, down: false, up: false, teleport: false }
}

/// Jumps onto the collectible, which the same frame collects.
fn collect(s: &mut GameSession, n: usize) {
    for _ in 0..n {
        let out = s.frame(jump(), None);
        assert_eq!(out.collisions.len(), 1);
    }
}

#[test]
fn new_session_starts_clean() {
    let s = GameSession::standard();
    assert_eq!(s.score(), 0);
    assert_eq!(s.terminal_score(), GAME_OVER_SCORE);
    assert_eq!(s.alpha(), FULL_ALPHA);
    assert_eq!(s.state(), GameState::InGame);
    assert_eq!(s.ball().map(|b| (b.x, b.y)), Some((0, 0)));
    assert_eq!(s.thingies().len(), 1);
    assert_eq!(s.thingies()[0].id, 0);
    assert_eq!(s.thingies()[0].alpha, FULL_ALPHA);
    assert_eq!(s.next_id(), 1);
    assert_eq!(s.trophies().len(), 3);
    assert_eq!(s.storyline().map(|st| st.text.clone()), Some(String::new()));
    assert_eq!(s.score_caption(), "Score: ");
}

#[test]
fn first_collision_scores_and_respawns() {
    let mut s = GameSession::standard();
    let old = s.thingies()[0];
    let out = s.frame(jump(), None);
    assert_eq!(out.collisions, vec![CollisionEvent(old.id)]);
    assert_eq!(s.ball(), Some(old.pos));
    assert_eq!(s.score(), 1);
    assert_eq!(s.thingies().len(), 1);
    assert_ne!(s.thingies()[0].id, old.id);
    assert_eq!(s.alpha(), FULL_ALPHA);
    assert_eq!(s.thingies()[0].alpha, FULL_ALPHA);
    assert!(!out.game_over);
}

#[test]
fn fade_starts_above_one_hundred() {
    let mut s = GameSession::standard();
    collect(&mut s, 100);
    assert_eq!(s.score(), 100);
    assert_eq!(s.alpha(), 100);
    collect(&mut s, 1);
    assert_eq!(s.score(), 101);
    assert_eq!(s.alpha(), 99);
    assert_eq!(s.thingies()[0].alpha, 99);
}

#[test]
fn first_trophy_at_ten() {
    let mut s = GameSession::standard();
    collect(&mut s, 9);
    assert!(s.trophies().iter().all(|t| !t.unlocked));
    let out = s.frame(jump(), None);
    assert_eq!(s.score(), 10);
    assert_eq!(out.unlocked, vec![0]);
    let flags: Vec<bool> = s.trophies().iter().map(|t| t.unlocked).collect();
    assert_eq!(flags, vec![true, false, false]);
}

#[test]
fn run_ends_at_terminal_score() {
    let mut s = GameSession::standard();
    collect(&mut s, 200);
    assert_eq!(s.state(), GameState::InGame);
    let out = s.frame(jump(), None);
    assert!(out.game_over);
    assert_eq!(s.score(), 201);
    assert_eq!(s.state(), GameState::GameOver);
    assert_eq!(s.ball(), None);
    assert!(s.thingies().is_empty());
    assert!(s.storyline().is_none());
    assert_eq!(s.score_caption(), "Kills:");
    assert!(s.trophies().iter().all(|t| t.unlocked));
}

#[test]
fn finished_run_does_not_change() {
    let mut s = GameSession::new(2, standard_trophies());
    collect(&mut s, 2);
    assert_eq!(s.state(), GameState::GameOver);
    let out = s.frame(jump(), None);
    assert!(out.collisions.is_empty() && out.unlocked.is_empty() && !out.game_over);
    assert_eq!(s.score(), 2);
    s.collision_spawn(&vec![CollisionEvent(9)]);
    spawn_thingy(&mut s);
    assert_eq!(s.score(), 2);
    assert!(s.thingies().is_empty());
    assert_eq!(s.state(), GameState::GameOver);
}

#[test]
fn jumping_over_terminal_score_keeps_running() {
    let mut s = GameSession::new(1, standard_trophies());
    s.collision_spawn(&vec![CollisionEvent(0), CollisionEvent(1)]);
    assert_eq!(s.score(), 2);
    assert!(!s.update_game_state());
    assert_eq!(s.state(), GameState::InGame);
    let out = s.frame(idle(), None);
    assert!(!out.game_over);
    assert!(s.score() >= 2);
    assert_eq!(s.state(), GameState::InGame);
}

#[test]
fn terminal_score_checked_without_collision() {
    let mut s = GameSession::new(0, standard_trophies());
    assert!(s.update_game_state());
    assert_eq!(s.state(), GameState::GameOver);
    assert!(!s.update_game_state());
}

#[test]
fn every_event_scores_and_respawns() {
    let mut s = GameSession::new(1000, standard_trophies());
    s.collision_spawn(&vec![CollisionEvent(0), CollisionEvent(5), CollisionEvent(6)]);
    assert_eq!(s.score(), 3);
    let ids: Vec<u64> = s.thingies().iter().map(|t| t.id).collect();
    assert_eq!(ids, vec![0, 1, 2, 3]);
    assert_eq!(s.next_id(), 4);
}

#[test]
fn fade_never_goes_below_zero() {
    let mut s = GameSession::new(1000, standard_trophies());
    let events: Vec<CollisionEvent> = (0..250).map(CollisionEvent).collect();
    s.collision_spawn(&events);
    assert_eq!(s.score(), 250);
    assert_eq!(s.alpha(), 0);
    let last = s.thingies()[s.thingies().len() - 1];
    assert_eq!(last.alpha, 0);
    // The collectible spawned with the 150th point still had some opacity.
    assert_eq!(s.thingies()[150].alpha, 50);
}

#[test]
fn score_only_grows_by_collisions() {
    let mut s = GameSession::standard();
    let moves = [
        idle(),
        jump(),
        MoveInput { left: true, right: false, down: true, up: false, teleport: false },
        jump(),
        idle(),
        MoveInput { left: false, right: true, down: false, up: true, teleport: false },
        jump(),
    ];
    let mut before = s.score();
    let mut total: usize = 0;
    for m in moves {
        let out = s.frame(m, None);
        total += out.collisions.len();
        assert!(s.score() >= before);
        assert_eq!(s.score() as usize, before as usize + out.collisions.len());
        before = s.score();
    }
    assert!(total >= 3);
    assert_eq!(s.score() as usize, total);
}

#[test]
fn storyline_follows_score() {
    let lines = StoryLines {
        storylines: vec![
            StoryLine { line: "the first one".to_string(), appears_at: 1 },
            StoryLine { line: "three".to_string(), appears_at: 3 },
        ],
    };
    let mut s = GameSession::standard();
    s.frame(jump(), Some(&lines));
    let t = s.thingies()[0];
    let st = s.storyline().unwrap();
    assert_eq!(st.text, "the first one");
    assert_eq!((st.anchor.x, st.anchor.y), (t.pos.x, t.pos.y + 15));
    s.frame(jump(), Some(&lines));
    assert_eq!(s.storyline().unwrap().text, "");
    s.frame(jump(), Some(&lines));
    assert_eq!(s.storyline().unwrap().text, "three");
    // Lines that are not loaded show nothing.
    s.frame(idle(), None);
    assert_eq!(s.storyline().unwrap().text, "");
}

#[test]
fn jump_needs_a_single_collectible() {
    let mut s = GameSession::new(1000, standard_trophies());
    spawn_thingy(&mut s);
    assert_eq!(s.thingies().len(), 2);
    s.move_ball(jump());
    assert_eq!(s.ball().map(|b| (b.x, b.y)), Some((0, 0)));
}

#[test]
fn closing_screen_lines() {
    let lines = closing_lines();
    let texts: Vec<&str> = lines.iter().map(|l| l.text).collect();
    assert_eq!(
        texts,
        vec![
            "EVEN THE SMALLEST action",
            "HAS A reaction.",
            "SOMETIMES IT'S GOOD TO JUST",
            "STOP AND THINK WHAT EFFECT",
            "YOUR CURRENT ACTIONS HAVE.",
            "THANK YOU FOR PLAYING.",
        ]
    );
    let places: Vec<(u32, u32)> = lines.iter().map(|l| (l.top, l.left)).collect();
    assert_eq!(places, vec![(100, 50), (150, 270), (250, 50), (300, 80), (350, 100), (500, 50)]);
}
