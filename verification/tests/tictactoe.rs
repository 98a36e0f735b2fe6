use rustbot::session::SessionStore;
use rustbot::tictactoe::{
    play, record_message, start_game, Cell, ChallengeError, MoveError, Opponent, PlayError, Player,
    Status, TicTacToeGame, TurnError, TurnReport,
};

const LINES: [[usize; 3]; 8] =
    [[1, 2, 3], [4, 5, 6], [7, 8, 9], [1, 4, 7], [2, 5, 8], [3, 6, 9], [1, 5, 9], [3, 5, 7]];

fn board_of(marks: &str) -> TicTacToeGame {
    // One character for each square: X, O or a dot.
    let mut game = TicTacToeGame::new_two_player(1, 2, 0);
    for (i, mark) in marks.chars().enumerate() {
        let wanted = match mark {
            'X' => Player::X,
            'O' => Player::O,
            _ => continue,
        };
        if game.current_player() != wanted {
            game.switch_player();
        }
        game.make_move(i + 1).unwrap();
    }
    if game.current_player() != Player::X {
        game.switch_player();
    }
    game
}

#[test]
fn new_games_start_empty_with_x_to_move() {
    let game = TicTacToeGame::new_two_player(10, 20, 30);
    assert_eq!(game.current_player(), Player::X);
    assert_eq!(game.player_x_id(), 10);
    assert_eq!(game.player_o_id(), Some(20));
    assert!(!game.is_ai_game());
    assert_eq!(game.message_id(), None);
    assert_eq!(game.channel_id(), 30);
    assert_eq!(game.get_current_player_id(), Some(10));
    for i in 0..9 {
        assert_eq!(game.cell(i), Cell::Empty);
    }
    let solo = TicTacToeGame::new_vs_ai(10, 30);
    assert!(solo.is_ai_game());
    assert_eq!(solo.player_o_id(), None);
    assert_eq!(solo.status(), Status::InProgress);
}

#[test]
fn every_line_wins_for_either_mark() {
    for line in LINES {
        for player in [Player::X, Player::O] {
            let mut game = TicTacToeGame::new_two_player(1, 2, 0);
            if player == Player::O {
                game.switch_player();
            }
            for (n, position) in line.iter().enumerate() {
                assert_eq!(game.check_winner(), None, "after {} marks", n);
                game.make_move(*position).unwrap();
            }
            assert_eq!(game.check_winner(), Some(player));
            assert_eq!(game.status(), Status::Won(player));
            assert!(!game.is_board_full());
        }
    }
}

#[test]
fn full_board_without_a_line_is_a_tie() {
    let game = board_of("XOXXOOOXX");
    assert!(game.is_board_full());
    assert_eq!(game.check_winner(), None);
    assert_eq!(game.status(), Status::Tied);
    let open = board_of("XOXXOOOX.");
    assert!(!open.is_board_full());
    assert_eq!(open.status(), Status::InProgress);
}

#[test]
fn moves_are_checked() {
    let mut game = TicTacToeGame::new_two_player(1, 2, 0);
    assert_eq!(game.make_move(0), Err(MoveError::InvalidPosition));
    assert_eq!(game.make_move(10), Err(MoveError::InvalidPosition));
    assert_eq!(game.make_move(5), Ok(()));
    assert_eq!(game.cell(4), Cell::Occupied(Player::X));
    assert_eq!(game.current_player(), Player::X);
    assert_eq!(game.make_move(5), Err(MoveError::CellOccupied));
    game.switch_player();
    assert_eq!(game.current_player(), Player::O);
    assert_eq!(game.make_move(5), Err(MoveError::CellOccupied));
    assert_eq!(game.cell(4), Cell::Occupied(Player::X));
    assert_eq!(game.make_move(9), Ok(()));
    assert_eq!(game.cell(8), Cell::Occupied(Player::O));
    assert_eq!(MoveError::InvalidPosition.message(), "Position must be between 1-9!");
    assert_eq!(MoveError::CellOccupied.message(), "That position is already taken!");
}

#[test]
fn board_is_shown_with_marks_and_positions() {
    let empty = TicTacToeGame::new_vs_ai(1, 0);
    assert_eq!(
        empty.display_board(),
        "```\n 1 | 2 | 3 \n---|---|---\n 4 | 5 | 6 \n---|---|---\n 7 | 8 | 9 \n```"
    );
    let game = board_of("X...O...X");
    assert_eq!(
        game.display_board(),
        "```\n X | 2 | 3 \n---|---|---\n 4 | O | 6 \n---|---|---\n 7 | 8 | X \n```"
    );
    assert_eq!(Player::X.symbol(), "❌");
    assert_eq!(Player::O.symbol(), "⭕");
    assert_eq!(Cell::Empty.symbol(), "⬜");
    assert_eq!(Cell::Occupied(Player::O).symbol(), "⭕");
    assert_eq!(Player::X.opponent(), Player::O);
}

#[test]
fn synthetic_opponent_follows_its_priorities() {
    // It completes its own line before it blocks.
    assert_eq!(board_of("XX.OO....").get_ai_move(), Some(6));
    assert_eq!(board_of("XX.OO....").find_winning_move(Player::O), Some(6));
    assert_eq!(board_of("XX.OO....").find_winning_move(Player::X), Some(3));
    // It blocks where it cannot win.
    assert_eq!(board_of("XX..O....").get_ai_move(), Some(3));
    assert_eq!(board_of("X...O...X").find_winning_move(Player::X), None);
    // The centre comes next.
    assert_eq!(board_of("X........").get_ai_move(), Some(5));
    assert_eq!(board_of(".........").get_ai_move(), Some(5));
    // Then the corners, in the order 1, 3, 7, 9.
    assert_eq!(board_of("....X....").get_ai_move(), Some(1));
    assert_eq!(board_of("O...X...X").get_ai_move(), Some(3));
    assert_eq!(board_of("XOOOXX.XO").get_ai_move(), Some(7));
    assert_eq!(board_of("XOOOXX.XO").find_winning_move(Player::O), None);
    // Then whatever is left.
    assert_eq!(board_of("XOX.XOOXO").get_ai_move(), Some(4));
    assert_eq!(board_of("XOXXOOOXX").get_ai_move(), None);
    // The lowest winning square is taken.
    assert_eq!(board_of("O.O...O.O").find_winning_move(Player::O), Some(2));
}

#[test]
fn move_out_of_turn_is_refused_and_changes_nothing() {
    let mut game = TicTacToeGame::new_two_player(1, 2, 0);
    let before = game.display_board();
    assert_eq!(game.take_turn(2, 5), Err(TurnError::NotYourTurn { expected: Some(1) }));
    assert_eq!(game.take_turn(3, 5), Err(TurnError::NotYourTurn { expected: Some(1) }));
    assert_eq!(game.display_board(), before);
    assert_eq!(game.current_player(), Player::X);
    assert_eq!(game.take_turn(1, 5), Ok(TurnReport::Next { reply: None }));
    assert_eq!(game.take_turn(1, 1), Err(TurnError::NotYourTurn { expected: Some(2) }));
    assert_eq!(game.take_turn(2, 5), Err(TurnError::Move(MoveError::CellOccupied)));
    assert_eq!(game.take_turn(2, 0), Err(TurnError::Move(MoveError::InvalidPosition)));
    assert_eq!(game.current_player(), Player::O);
    assert_eq!(game.cell(0), Cell::Empty);
    assert_eq!(game.take_turn(2, 1), Ok(TurnReport::Next { reply: None }));
    assert_eq!(game.current_player(), Player::X);
}

#[test]
fn two_players_play_to_a_win() {
    let mut game = TicTacToeGame::new_two_player(1, 2, 0);
    assert_eq!(game.take_turn(1, 1), Ok(TurnReport::Next { reply: None }));
    assert_eq!(game.take_turn(2, 4), Ok(TurnReport::Next { reply: None }));
    assert_eq!(game.take_turn(1, 2), Ok(TurnReport::Next { reply: None }));
    assert_eq!(game.take_turn(2, 5), Ok(TurnReport::Next { reply: None }));
    assert_eq!(game.take_turn(1, 3), Ok(TurnReport::Won { winner: Player::X, reply: None }));
    // The turn does not pass once the game is over.
    assert_eq!(game.current_player(), Player::X);
    assert_eq!(game.status(), Status::Won(Player::X));
}

#[test]
fn synthetic_opponent_replies_in_the_same_turn() {
    let mut game = TicTacToeGame::new_vs_ai(1, 0);
    assert_eq!(game.take_turn(1, 1), Ok(TurnReport::Next { reply: Some(5) }));
    assert_eq!(game.cell(4), Cell::Occupied(Player::O));
    assert_eq!(game.current_player(), Player::X);
    assert_eq!(game.get_current_player_id(), Some(1));
    // X threatens 1-2-3; O blocks at 3.
    assert_eq!(game.take_turn(1, 2), Ok(TurnReport::Next { reply: Some(3) }));
    // O now threatens 3-5-7; X does not block, O wins.
    assert_eq!(
        game.take_turn(1, 9),
        Ok(TurnReport::Won { winner: Player::O, reply: Some(7) })
    );
    assert_eq!(game.status(), Status::Won(Player::O));
    assert_eq!(game.current_player(), Player::O);
}

#[test]
fn game_against_the_synthetic_opponent_can_tie() {
    let mut game = TicTacToeGame::new_vs_ai(1, 0);
    assert_eq!(game.take_turn(1, 5), Ok(TurnReport::Next { reply: Some(1) }));
    assert_eq!(game.take_turn(1, 9), Ok(TurnReport::Next { reply: Some(3) }));
    assert_eq!(game.take_turn(1, 2), Ok(TurnReport::Next { reply: Some(8) }));
    assert_eq!(game.take_turn(1, 7), Ok(TurnReport::Next { reply: Some(4) }));
    assert_eq!(game.take_turn(1, 6), Ok(TurnReport::Tied { reply: None }));
    assert!(game.is_board_full());
    assert_eq!(game.check_winner(), None);
}

#[test]
fn challenges_are_checked_before_anybody_is_registered() {
    let mut store = SessionStore::new();
    let human = |id| Some(Opponent { id, is_bot: false });
    assert_eq!(start_game(&mut store, 1, human(1), 7).err(), Some(ChallengeError::SelfChallenge));
    assert_eq!(
        start_game(&mut store, 1, Some(Opponent { id: 9, is_bot: true }), 7).err(),
        Some(ChallengeError::BotOpponent)
    );
    assert_eq!(store.len(), 0);
    let game = start_game(&mut store, 1, human(2), 7).unwrap();
    assert_eq!((game.player_x_id(), game.player_o_id(), game.channel_id()), (1, Some(2), 7));
    assert!(store.contains(1) && store.contains(2));
    // A busy challenger is told so first, whoever they name.
    assert_eq!(start_game(&mut store, 1, human(1), 7).err(), Some(ChallengeError::AlreadyActive));
    assert_eq!(start_game(&mut store, 2, None, 7).err(), Some(ChallengeError::AlreadyActive));
    // A busy opponent: the challenger gets no session either.
    assert_eq!(start_game(&mut store, 3, human(2), 7).err(), Some(ChallengeError::OpponentBusy));
    assert!(!store.contains(3));
    assert_eq!(store.len(), 2);
    let solo = start_game(&mut store, 3, None, 8).unwrap();
    assert!(solo.is_ai_game());
    assert_eq!(store.partner(3), None);
    assert_eq!(store.len(), 3);
}

#[test]
fn both_players_see_one_game_and_lose_it_together() {
    let mut store = SessionStore::new();
    start_game(&mut store, 1, Some(Opponent { id: 2, is_bot: false }), 7).unwrap();
    assert_eq!(play(&mut store, 3, 5).err(), Some(PlayError::NotFound));
    assert_eq!(
        play(&mut store, 2, 5).err(),
        Some(PlayError::Turn(TurnError::NotYourTurn { expected: Some(1) }))
    );
    assert_eq!(store.get(1).unwrap().cell(4), Cell::Empty);
    let (game, report) = play(&mut store, 1, 5).unwrap();
    assert_eq!(report, TurnReport::Next { reply: None });
    assert_eq!(game.cell(4), Cell::Occupied(Player::X));
    assert_eq!(store.get(2).unwrap().cell(4), Cell::Occupied(Player::X));
    assert_eq!(store.get(2).unwrap().current_player(), Player::O);
    assert_eq!(
        play(&mut store, 2, 5).err(),
        Some(PlayError::Turn(TurnError::Move(MoveError::CellOccupied)))
    );
    assert_eq!(record_message(&mut store, 2, 99), Ok(()));
    assert_eq!(store.get(1).unwrap().message_id(), Some(99));
    assert_eq!(record_message(&mut store, 3, 99), Err(PlayError::NotFound));
    play(&mut store, 2, 1).unwrap();
    play(&mut store, 1, 4).unwrap();
    play(&mut store, 2, 2).unwrap();
    let (last, report) = play(&mut store, 1, 6).unwrap();
    assert_eq!(report, TurnReport::Won { winner: Player::X, reply: None });
    assert_eq!(last.status(), Status::Won(Player::X));
    assert_eq!(last.message_id(), Some(99));
    assert!(!store.contains(1));
    assert!(!store.contains(2));
    assert_eq!(play(&mut store, 2, 3).err(), Some(PlayError::NotFound));
}

#[test]
fn game_against_the_synthetic_opponent_through_the_registry() {
    let mut store = SessionStore::new();
    start_game(&mut store, 1, None, 7).unwrap();
    let (_, report) = play(&mut store, 1, 1).unwrap();
    assert_eq!(report, TurnReport::Next { reply: Some(5) });
    let (_, report) = play(&mut store, 1, 2).unwrap();
    assert_eq!(report, TurnReport::Next { reply: Some(3) });
    let (game, report) = play(&mut store, 1, 9).unwrap();
    assert_eq!(report, TurnReport::Won { winner: Player::O, reply: Some(7) });
    assert_eq!(game.cell(6), Cell::Occupied(Player::O));
    assert!(store.get(1).is_none());
}
