use battleship::control::{command_for, App, CellColor, Command, Event, KeyPress};
use battleship::game::Game;
use battleship::status::{Difficulty, Rule, Status};

fn app(rule: Rule, difficulty: Difficulty, seed: u64) -> App {
    App::with_game("Battleship".into(), Game::seeded(rule, difficulty, Some(seed)).unwrap())
}

fn press(app: &mut App, keys: &[KeyPress]) {
    for key in keys {
        app.on_key(*key);
    }
}

const SPACE: KeyPress = KeyPress::Char(' ');
const ENTER: KeyPress = KeyPress::Char('\n');

#[test]
fn keys_and_their_commands() {
    assert_eq!(command_for(KeyPress::Up), Command::Up);
    assert_eq!(command_for(KeyPress::Char('k')), Command::Up);
    assert_eq!(command_for(KeyPress::Down), Command::Down);
    assert_eq!(command_for(KeyPress::Char('j')), Command::Down);
    assert_eq!(command_for(KeyPress::Left), Command::Left);
    assert_eq!(command_for(KeyPress::Char('h')), Command::Left);
    assert_eq!(command_for(KeyPress::Right), Command::Right);
    assert_eq!(command_for(KeyPress::Char('l')), Command::Right);
    assert_eq!(command_for(SPACE), Command::Select);
    assert_eq!(command_for(ENTER), Command::Fire);
    assert_eq!(command_for(KeyPress::Char('q')), Command::Quit);
    assert_eq!(command_for(KeyPress::Ctrl('c')), Command::Quit);
    assert_eq!(command_for(KeyPress::Ctrl('q')), Command::Ignore);
    assert_eq!(command_for(KeyPress::Char('x')), Command::Ignore);
    assert_eq!(command_for(KeyPress::Other), Command::Ignore);
}

#[test]
fn a_new_controller() {
    let app = App::new("Battleship".into(), Rule::Desperation, Difficulty::Easy).unwrap();
    assert_eq!(app.title, "Battleship");
    assert!(!app.should_quit);
    assert!(app.enhanced_graphics);
    assert!(app.message.is_empty());
    assert_eq!(app.frame_count, 0);
    assert_eq!(app.active(), (0, 0));
    assert_eq!(app.rule(), Rule::Desperation);
    assert!(!app.is_won());
    assert!(!app.is_selected((0, 0)));
    assert!(app.is_valid_rule());
    assert!(app.game().is_user_turn());
    assert_eq!(app.elapsed_duration(17), 17);
}

#[test]
fn the_cursor_stays_on_the_board() {
    let mut app = app(Rule::Default, Difficulty::Easy, 1);
    press(&mut app, &[KeyPress::Up, KeyPress::Left]);
    assert_eq!(app.active(), (0, 0));
    press(&mut app, &[KeyPress::Down, KeyPress::Char('j'), KeyPress::Right]);
    assert_eq!(app.active(), (2, 1));
    press(&mut app, &[KeyPress::Char('k'), KeyPress::Char('l'), KeyPress::Char('l')]);
    assert_eq!(app.active(), (1, 3));
    press(&mut app, &[KeyPress::Char('h')]);
    assert_eq!(app.active(), (1, 2));
    press(&mut app, &[KeyPress::Down; 20]);
    press(&mut app, &[KeyPress::Right; 20]);
    assert_eq!(app.active(), (9, 9));
    press(&mut app, &[KeyPress::Up; 20]);
    press(&mut app, &[KeyPress::Left; 20]);
    assert_eq!(app.active(), (0, 0));
    app.on_up();
    app.on_left();
    assert_eq!(app.active(), (0, 0));
    app.on_down();
    app.on_right();
    assert_eq!(app.active(), (1, 1));
}

#[test]
fn a_cell_is_chosen_and_let_go() {
    let mut app = app(Rule::Default, Difficulty::Easy, 2);
    press(&mut app, &[KeyPress::Down, SPACE]);
    assert!(app.is_selected((1, 0)));
    assert!(!app.is_valid_rule());
    assert!(app.message.is_empty());
    press(&mut app, &[SPACE]);
    assert!(!app.is_selected((1, 0)));
    assert!(app.is_valid_rule());
}

#[test]
fn a_cell_beyond_the_quota_is_not_chosen() {
    let mut app = app(Rule::Default, Difficulty::Easy, 3);
    press(&mut app, &[SPACE, KeyPress::Right, SPACE]);
    assert!(app.is_selected((0, 0)));
    assert!(!app.is_selected((0, 1)));
    assert_eq!(app.message, "Maximum shots for rule selected");

    let mut app = self::app(Rule::SuperCharge, Difficulty::Easy, 3);
    for _ in 0..4 {
        press(&mut app, &[SPACE, KeyPress::Right]);
    }
    assert!(app.message.is_empty());
    press(&mut app, &[SPACE]);
    assert!(!app.is_selected((0, 4)));
    assert!((0..4).all(|c| app.is_selected((0, c))));
    assert_eq!(app.message, "Maximum shots for rule selected");
}

#[test]
fn firing_without_a_choice_asks_for_one() {
    let mut app = app(Rule::Default, Difficulty::Easy, 4);
    press(&mut app, &[ENTER]);
    assert_eq!(app.message, "Select opponent coordinates to hit");
    assert!(app.game().is_user_turn());
    press(&mut app, &[ENTER]);
    assert_eq!(
        app.message,
        "Select opponent coordinates to hit\nSelect opponent coordinates to hit"
    );
}

#[test]
fn firing_resolves_the_choice_and_clears_it() {
    let mut app = app(Rule::Default, Difficulty::Easy, 5);
    press(&mut app, &[KeyPress::Down, KeyPress::Right, SPACE, ENTER]);
    assert!(!app.is_selected((1, 1)));
    assert!(!app.game().is_user_turn());
    let seen = app.cell((1, 1), false).get_position_status();
    match seen {
        Status::Hit => assert_eq!(app.message, "You have 1 hit."),
        Status::Miss => assert_eq!(app.message, "You have 0 hit. You missed 1."),
        other => panic!("a first shot cannot be {:?}", other),
    }
    // the computer has not answered yet
    let report = app.message.clone();
    press(&mut app, &[KeyPress::Right, SPACE, ENTER]);
    assert!(app.is_selected((1, 2)));
    assert_eq!(app.message, format!("{}\nNot your turn", report));
}

#[test]
fn the_computer_answers_on_every_eighth_tick() {
    let mut app = app(Rule::Default, Difficulty::Hard, 6);
    press(&mut app, &[SPACE, ENTER]);
    assert!(!app.game().is_user_turn());
    // tick 0 is a tick of the computer's
    app.on_tick(1);
    assert!(app.game().is_user_turn());
    assert_eq!(app.frame_count, 1);
    assert!(
        app.message == "Computer have 1 hit."
            || app.message == "Computer have 0 hit. Computer missed 1."
    );
    press(&mut app, &[KeyPress::Right, SPACE, ENTER]);
    let report = app.message.clone();
    for tick in 1..8u16 {
        assert_eq!(app.frame_count, tick);
        app.on_tick(2);
        assert!(!app.game().is_user_turn());
        assert_eq!(app.message, report);
    }
    app.on_tick(3);
    assert_eq!(app.frame_count, 9);
    assert!(app.game().is_user_turn());
    assert_eq!(app.message, "Computer have 0 hit. Computer missed 1.");
}

#[test]
fn ticks_are_counted_round_the_clock() {
    let mut app = app(Rule::Default, Difficulty::Easy, 7);
    app.frame_count = u16::MAX;
    app.on_tick(0);
    assert_eq!(app.frame_count, 0);
    assert!(app.message.is_empty());
    assert!(app.game().is_user_turn());
}

#[test]
fn the_time_is_taken_once_the_game_is_over() {
    let mut app = app(Rule::SuperCharge, Difficulty::Hard, 8);
    let mut rounds = 0;
    // four shots a turn along the rows until the computer's fleet is gone
    'game: for r in 0..9 {
        for c in [0usize, 4] {
            app = {
                let mut app = app;
                while app.active() != (r, c) {
                    if app.active().0 < r {
                        app.on_down();
                    } else if app.active().1 < c {
                        app.on_right();
                    } else {
                        app.on_left();
                    }
                }
                app
            };
            for _ in 0..4 {
                press(&mut app, &[SPACE, KeyPress::Right]);
            }
            app.message.clear();
            press(&mut app, &[ENTER]);
            rounds += 1;
            if app.is_won() {
                break 'game;
            }
            while !app.game().is_user_turn() {
                app.on_tick(5);
            }
        }
    }
    assert!(rounds > 1);
    assert!(app.is_won());
    assert_eq!(app.message, "You won 🙌");
    assert_eq!(app.elapsed_duration(40), 40);
    app.on_tick(42);
    assert_eq!(app.message, "You won 🙌 (In 42 seconds)");
    assert_eq!(app.elapsed_duration(50), 42);
    app.on_tick(43);
    assert_eq!(app.message, "You won 🙌 (In 42 seconds)");
    assert_eq!(app.elapsed_duration(60), 42);
    // nothing is chosen and nothing is fired any more
    press(&mut app, &[SPACE]);
    assert!(!app.is_selected(app.active()));
    assert!(app.on_draw());
}

#[test]
fn keys_to_leave_the_game() {
    let mut app = app(Rule::Default, Difficulty::Easy, 9);
    app.on_key(KeyPress::Char('q'));
    assert!(!app.should_quit);
    app.on_event(Event::Input(KeyPress::Down), 0);
    assert_eq!(app.active(), (1, 0));
    assert!(!app.should_quit);
    app.on_event(Event::Input(KeyPress::Char('q')), 0);
    assert!(app.should_quit);
    let mut app = self::app(Rule::Default, Difficulty::Easy, 9);
    app.on_event(Event::Input(KeyPress::Ctrl('c')), 0);
    assert!(app.should_quit);
    assert_eq!(app.frame_count, 0);
    app.on_event(Event::Tick, 0);
    assert_eq!(app.frame_count, 1);
}

#[test]
fn the_message_shows_between_the_ticks_of_the_computer() {
    let mut app = app(Rule::Default, Difficulty::Easy, 10);
    app.message = "hello".into();
    app.frame_count = 3;
    assert!(app.on_draw());
    assert_eq!(app.message, "hello");
    app.frame_count = 16;
    assert!(!app.on_draw());
    assert!(app.message.is_empty());
}

#[test]
fn cells_of_the_two_boards() {
    let mut app = app(Rule::SuperCharge, Difficulty::Easy, 11);
    let own = app.game().player().player_board().positions[2][3].status;
    let cell = app.cell((2, 3), true);
    assert_eq!(cell.get_position_status(), own);
    assert!(!cell.is_active());
    assert!(!cell.is_selected());
    assert_eq!(
        cell.color(),
        if own == Status::Live { CellColor::Yellow } else { CellColor::White }
    );
    assert_eq!(cell.text(), "");

    // on the board to aim at: the cursor, then the choice
    assert_eq!(app.cell((0, 0), false).color(), CellColor::Cyan);
    assert!(app.cell((0, 0), false).is_active());
    assert!(!app.cell((0, 0), true).is_active());
    assert_eq!(app.cell((0, 1), false).color(), CellColor::White);
    press(&mut app, &[SPACE]);
    assert!(app.cell((0, 0), false).is_selected());
    assert!(!app.cell((0, 0), true).is_selected());
    assert_eq!(app.cell((0, 0), false).color(), CellColor::Yellow);
    press(&mut app, &[KeyPress::Right, SPACE, KeyPress::Right, SPACE, KeyPress::Down, ENTER]);
    for c in 0..3 {
        let cell = app.cell((0, c), false);
        match cell.get_position_status() {
            Status::Hit => {
                assert_eq!(cell.color(), CellColor::Red);
                assert_eq!(cell.text(), "💥");
            }
            Status::Miss => {
                assert_eq!(cell.color(), CellColor::White);
                assert_eq!(cell.text(), "❌");
            }
            other => panic!("a first volley cannot give {:?}", other),
        }
    }
}
