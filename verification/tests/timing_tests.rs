use bomberman::animation::{
    get_death_frame, AnimationController, AnimationRenderFrame, DirectionalFrames, MovementDirection,
};
use bomberman::controls::{Controls, Direction};
use bomberman::game_play_timer::{GamePlayTimer, GamePlayTimerType};
use bomberman::timer::{Timer, TimerMode};

const SECOND: u64 = 1_000_000_000;

#[test]
fn once_timer_finishes_and_stays_finished() {
    let mut t = Timer::new(1000, TimerMode::Once);
    assert_eq!(t.elapsed_nanos(), 0);
    assert!(!t.is_finished());
    t.tick(400);
    assert_eq!(t.elapsed_nanos(), 400);
    assert_eq!(t.remaining_nanos(), 600);
    assert!(!t.is_finished());
    assert!(!t.just_finished());
    t.tick(700);
    assert_eq!(t.elapsed_nanos(), 1000);
    assert!(t.is_finished());
    assert!(t.just_finished());
    assert_eq!(t.times_finished_this_tick(), 1);
    t.tick(5);
    assert!(t.is_finished());
    assert!(!t.just_finished());
    assert_eq!(t.elapsed_nanos(), 1000);
    t.reset();
    assert_eq!(t.elapsed_nanos(), 0);
    assert!(!t.is_finished());
    assert_eq!(t.duration_nanos(), 1000);
    assert_eq!(t.mode(), TimerMode::Once);
}

#[test]
fn repeating_timer_wraps_around() {
    let mut t = Timer::new(100, TimerMode::Repeating);
    t.tick(250);
    assert_eq!(t.elapsed_nanos(), 50);
    assert_eq!(t.times_finished_this_tick(), 2);
    assert!(t.is_finished());
    t.tick(10);
    assert_eq!(t.elapsed_nanos(), 60);
    assert_eq!(t.times_finished_this_tick(), 0);
    assert!(!t.is_finished());
    t.tick(40);
    assert_eq!(t.elapsed_nanos(), 0);
    assert_eq!(t.times_finished_this_tick(), 1);
}

#[test]
fn newest_key_wins_and_release_undoes_press() {
    let mut c = Controls::default();
    assert_eq!(c.into_movement(), None);
    assert!(!c.place_bomb);
    c.update_direction(Direction::Up, true);
    assert_eq!(c.into_movement(), Some(Direction::Up));
    c.update_direction(Direction::Left, true);
    assert_eq!(c.into_movement(), Some(Direction::Left));
    c.update_direction(Direction::Up, true);
    assert_eq!(c.into_movement(), Some(Direction::Left));
    c.update_direction(Direction::Left, false);
    assert_eq!(c.into_movement(), Some(Direction::Up));
    c.update_direction(Direction::Down, false);
    assert_eq!(c.into_movement(), Some(Direction::Up));
    c.update_direction(Direction::Up, false);
    assert_eq!(c.into_movement(), None);
}

fn frames() -> DirectionalFrames<u8> {
    let four = |base: u8| {
        [
            AnimationRenderFrame::new(base, false),
            AnimationRenderFrame::new(base + 1, false),
            AnimationRenderFrame::new(base + 2, true),
            AnimationRenderFrame::new(base + 3, false),
        ]
    };
    DirectionalFrames { up: four(10), down: four(20), left: four(30), right: four(40) }
}

#[test]
fn animation_starts_with_a_step() {
    let mut a = AnimationController::new(frames());
    assert_eq!(*a.current_frame().tile(), 20);
    a.update(50_000_000, MovementDirection(Some(Direction::Up)));
    assert_eq!(*a.current_frame().tile(), 11);
    a.update(50_000_000, MovementDirection(Some(Direction::Up)));
    assert_eq!(*a.current_frame().tile(), 12);
    assert!(a.current_frame().flip_x());
    a.update(250_000_000, MovementDirection(Some(Direction::Left)));
    assert_eq!(*a.current_frame().tile(), 30);
    a.update(0, MovementDirection(None));
    assert_eq!(*a.current_frame().tile(), 30);
    a.update(10, MovementDirection(Some(Direction::Right)));
    assert_eq!(*a.current_frame().tile(), 41);
}

#[test]
fn death_frames_follow_weights() {
    let weighted: Vec<(AnimationRenderFrame<u8>, u32)> = vec![
        (AnimationRenderFrame::new(0, false), 2),
        (AnimationRenderFrame::new(1, false), 2),
        (AnimationRenderFrame::new(2, false), 1),
        (AnimationRenderFrame::new(3, false), 1),
        (AnimationRenderFrame::new(4, false), 1),
    ];
    assert_eq!(*get_death_frame(0, &weighted).tile(), 0);
    assert_eq!(*get_death_frame(1, &weighted).tile(), 0);
    assert_eq!(*get_death_frame(2, &weighted).tile(), 1);
    assert_eq!(*get_death_frame(4, &weighted).tile(), 2);
    assert_eq!(*get_death_frame(6, &weighted).tile(), 4);
    assert_eq!(*get_death_frame(7, &weighted).tile(), 4);
    assert_eq!(*get_death_frame(100, &weighted).tile(), 4);
}

#[test]
fn game_clock_turns_to_overtime() {
    let mut clock = GamePlayTimer::new();
    assert_eq!(clock.kind(), GamePlayTimerType::Basic);
    assert_eq!(clock.basic_time_remaining(), Some(180 * SECOND));
    assert_eq!(clock.overtime_duration(), 0);
    clock.tick(61 * SECOND + 500_000_000);
    assert_eq!(clock.basic_time_remaining(), Some(118 * SECOND + 500_000_000));
    assert!(!clock.turned_overtime_this_tick());
    assert!(clock.tick_fits(200 * SECOND));
    clock.tick(119 * SECOND);
    assert_eq!(clock.kind(), GamePlayTimerType::Overtime);
    assert!(clock.turned_overtime_this_tick());
    assert_eq!(clock.overtimes(), 1);
    assert_eq!(clock.basic_time_remaining(), None);
    assert_eq!(clock.overtime_duration(), 30 * SECOND as u128);
    clock.tick(65 * SECOND);
    assert!(!clock.turned_overtime_this_tick());
    assert_eq!(clock.kind(), GamePlayTimerType::Overtime);
    assert_eq!(clock.overtimes(), 3);
    assert_eq!(clock.overtime_duration(), 95 * SECOND as u128);
    assert_eq!(GamePlayTimer::default().basic_time_remaining(), Some(180 * SECOND));
}

#[test]
fn split_ticks_give_the_same_time() {
    let mut split = Timer::new(100, TimerMode::Repeating);
    split.tick(70);
    split.tick(80);
    let mut whole = Timer::new(100, TimerMode::Repeating);
    whole.tick(150);
    assert_eq!(split.elapsed_nanos(), whole.elapsed_nanos());
    assert_eq!(whole.elapsed_nanos(), 50);
    let mut once_split = Timer::new(1000, TimerMode::Once);
    once_split.tick(300);
    once_split.tick(800);
    let mut once_whole = Timer::new(1000, TimerMode::Once);
    once_whole.tick(1100);
    assert_eq!(once_split.elapsed_nanos(), once_whole.elapsed_nanos());
    assert_eq!(once_split.is_finished(), once_whole.is_finished());
    assert!(once_whole.is_finished());
}

#[test]
fn death_frame_never_goes_back() {
    let weighted: Vec<(AnimationRenderFrame<u8>, u32)> = vec![
        (AnimationRenderFrame::new(0, false), 2),
        (AnimationRenderFrame::new(1, false), 2),
        (AnimationRenderFrame::new(2, false), 1),
        (AnimationRenderFrame::new(3, false), 1),
        (AnimationRenderFrame::new(4, false), 1),
    ];
    let mut shown = Vec::new();
    for target in 0..12u32 {
        shown.push(*get_death_frame(target, &weighted).tile());
    }
    assert_eq!(shown, vec![0, 0, 1, 1, 2, 3, 4, 4, 4, 4, 4, 4]);
}

#[test]
fn overtime_is_announced_once() {
    let mut clock = GamePlayTimer::new();
    let mut announced_on = Vec::new();
    for tick in 0..400u32 {
        let was_basic = clock.kind() == GamePlayTimerType::Basic;
        assert!(clock.tick_fits(SECOND));
        clock.tick(SECOND);
        let now_overtime = clock.kind() == GamePlayTimerType::Overtime;
        assert_eq!(clock.turned_overtime_this_tick(), was_basic && now_overtime);
        if clock.turned_overtime_this_tick() {
            announced_on.push(tick);
        }
        assert_eq!(now_overtime, tick >= 179);
        assert_eq!(clock.basic_time_remaining().is_none(), now_overtime);
    }
    assert_eq!(announced_on, vec![179]);
    assert_eq!(clock.overtimes(), 8);
}
