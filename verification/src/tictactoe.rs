//! Tic-Tac-Toe: the board, the rules, the synthetic opponent, and the
//! resolution of one turn.



use crate::session::{model_end, model_set, model_start, model_start_pair, Entry, SessionStore};
use vstd::prelude::*;
use vstd::string::StringExecFns;

verus! {

/// One of the two marks.
#[derive(Clone, Copy, PartialEq, Eq, Structural, Debug)]
pub enum Player {
    X,
    O,
}

/// One square of the board.
#[derive(Clone, Copy, PartialEq, Eq, Structural, Debug)]
pub enum Cell {
    Empty,
    Occupied(Player),
}

/// Why a mark could not be placed.
#[derive(Clone, Copy, PartialEq, Eq, Structural, Debug)]
pub enum MoveError {
    /// The position is not one of 1 to 9.
    InvalidPosition,
    /// The square already holds a mark.
    CellOccupied,
}

/// Where a game stands.
#[derive(Clone, Copy, PartialEq, Eq, Structural, Debug)]
pub enum Status {
    InProgress,
    Won(Player),
    Tied,
}

/// Why a turn was refused.
#[derive(Clone, Copy, PartialEq, Eq, Structural, Debug)]
pub enum TurnError {
    /// It is the turn of `expected` (`None`: the synthetic opponent).
    NotYourTurn { expected: Option<u64> },
    /// The mark could not be placed.
    Move(MoveError),
}

/// What a turn led to. `reply` is the square the synthetic opponent took in
/// the same turn, if it moved.
#[derive(Clone, Copy, PartialEq, Eq, Structural, Debug)]
pub enum TurnReport {
    Won { winner: Player, reply: Option<usize> },
    Tied { reply: Option<usize> },
    Next { reply: Option<usize> },
}

/// A game as contracts see it. `cells` lists the nine squares row by row:
/// position `p` of 1 to 9 is `cells[p - 1]`.
pub struct GameView {
    pub cells: Seq<Cell>,
    pub current: Player,
    pub x_id: u64,
    pub o_id: Option<u64>,
    pub message_id: Option<u64>,
    pub channel_id: u64,
}

pub open spec fn other(p: Player) -> Player {
    match p {
        Player::X => Player::O,
        Player::O => Player::X,
    }
}

/// The eight lines of three, in the order in which a winner is looked for:
/// rows, columns, main diagonal, other diagonal.
pub open spec fn line(k: int) -> (int, int, int) {
    if k == 0 {
        (0, 1, 2)
    } else if k == 1 {
        (3, 4, 5)
    } else if k == 2 {
        (6, 7, 8)
    } else if k == 3 {
        (0, 3, 6)
    } else if k == 4 {
        (1, 4, 7)
    } else if k == 5 {
        (2, 5, 8)
    } else if k == 6 {
        (0, 4, 8)
    } else {
        (2, 4, 6)
    }
}

/// The player whose marks fill line `k`, if one does.
pub open spec fn line_owner(cells: Seq<Cell>, k: int) -> Option<Player> {
    let (a, b, c) = line(k);
    match cells[a] {
        Cell::Occupied(p) => if cells[b] == cells[a] && cells[c] == cells[a] {
            Some(p)
        } else {
            None
        },
        Cell::Empty => None,
    }
}

/// The owner of the first filled line at or after `k`.
pub open spec fn first_owner(cells: Seq<Cell>, k: int) -> Option<Player>
    decreases 8 - k,
{
    if k < 0 || k >= 8 {
        None
    } else if line_owner(cells, k) is Some {
        line_owner(cells, k)
    } else {
        first_owner(cells, k + 1)
    }
}

/// The winner: the owner of the first filled line.
pub open spec fn winner(cells: Seq<Cell>) -> Option<Player> {
    first_owner(cells, 0)
}

/// No square is empty.
pub open spec fn full(cells: Seq<Cell>) -> bool {
    forall|i: int| 0 <= i < 9 ==> cells[i] != Cell::Empty
}

pub open spec fn status(cells: Seq<Cell>) -> Status {
    match winner(cells) {
        Some(p) => Status::Won(p),
        None => if full(cells) {
            Status::Tied
        } else {
            Status::InProgress
        },
    }
}

/// Whether a mark may be placed at `position`.
pub open spec fn move_verdict(cells: Seq<Cell>, position: int) -> Result<(), MoveError> {
    if !(1 <= position <= 9) {
        Err(MoveError::InvalidPosition)
    } else if cells[position - 1] != Cell::Empty {
        Err(MoveError::CellOccupied)
    } else {
        Ok(())
    }
}

/// The game after the current player marks `position`. The turn does not
/// pass yet.
pub open spec fn place(g: GameView, position: int) -> GameView {
    GameView { cells: g.cells.update(position - 1, Cell::Occupied(g.current)), ..g }
}

pub open spec fn pass(g: GameView) -> GameView {
    GameView { current: other(g.current), ..g }
}

/// Marking the empty square `position` would give `p` a win.
pub open spec fn completes(cells: Seq<Cell>, p: Player, position: int) -> bool {
    &&& 1 <= position <= 9
    &&& cells[position - 1] == Cell::Empty
    &&& winner(cells.update(position - 1, Cell::Occupied(p))) == Some(p)
}

/// The lowest position at or after `from` that would give `p` a win.
pub open spec fn winning_move_from(cells: Seq<Cell>, p: Player, from: int) -> Option<int>
    decreases 10 - from,
{
    if from < 1 || from > 9 {
        None
    } else if completes(cells, p, from) {
        Some(from)
    } else {
        winning_move_from(cells, p, from + 1)
    }
}

/// The lowest empty position at or after `from`.
pub open spec fn first_empty_from(cells: Seq<Cell>, from: int) -> Option<int>
    decreases 10 - from,
{
    if from < 1 || from > 9 {
        None
    } else if cells[from - 1] == Cell::Empty {
        Some(from)
    } else {
        first_empty_from(cells, from + 1)
    }
}

/// The square the synthetic opponent, playing O, takes: a square that wins;
/// else one that stops X from winning; else the centre; else a corner, in
/// the order 1, 3, 7, 9; else the first empty square.
pub open spec fn ai_choice(cells: Seq<Cell>) -> Option<int> {
    if winning_move_from(cells, Player::O, 1) is Some {
        winning_move_from(cells, Player::O, 1)
    } else if winning_move_from(cells, Player::X, 1) is Some {
        winning_move_from(cells, Player::X, 1)
    } else if cells[4] == Cell::Empty {
        Some(5)
    } else if cells[0] == Cell::Empty {
        Some(1)
    } else if cells[2] == Cell::Empty {
        Some(3)
    } else if cells[6] == Cell::Empty {
        Some(7)
    } else if cells[8] == Cell::Empty {
        Some(9)
    } else {
        first_empty_from(cells, 1)
    }
}

/// Whose turn it is, by identifier. `None` stands for the synthetic
/// opponent.
pub open spec fn current_id(g: GameView) -> Option<u64> {
    match g.current {
        Player::X => Some(g.x_id),
        Player::O => g.o_id,
    }
}

/// What follows once a mark has been placed and the turn has not passed:
/// the game and the report, given the reply made so far.
pub open spec fn settle(g: GameView, reply: Option<usize>) -> (GameView, TurnReport) {
    match status(g.cells) {
        Status::Won(p) => (g, TurnReport::Won { winner: p, reply }),
        Status::Tied => (g, TurnReport::Tied { reply }),
        Status::InProgress => (pass(g), TurnReport::Next { reply }),
    }
}

/// One whole turn: `user` asks to mark `position`.
///
/// A request by anyone but the current player, or for a square that cannot
/// be marked, is refused and changes nothing. Otherwise the mark is placed.
/// If that ends the game the turn does not pass. If it does not, the turn
/// passes, and where O is the synthetic opponent it replies at once.
pub open spec fn turn(g: GameView, user: u64, position: int) -> (
    GameView,
    Result<TurnReport, TurnError>,
) {
    if current_id(g) != Some(user) {
        (g, Err(TurnError::NotYourTurn { expected: current_id(g) }))
    } else if move_verdict(g.cells, position) is Err {
        (g, Err(TurnError::Move(move_verdict(g.cells, position)->Err_0)))
    } else {
        let (g1, first) = settle(place(g, position), None);
        if first is Next && g1.o_id is None && g1.current == Player::O {
            match ai_choice(g1.cells) {
                Some(a) => {
                    let (g2, second) = settle(place(g1, a), Some(a as usize));
                    (g2, Ok(second))
                },
                None => (g1, Ok(first)),
            }
        } else {
            (g1, Ok(first))
        }
    }
}

/// The character a square shows on the text board: its mark, or its
/// position while it is empty.
pub open spec fn glyph(cells: Seq<Cell>, i: int) -> char {
    match cells[i] {
        Cell::Empty => seq!['1', '2', '3', '4', '5', '6', '7', '8', '9'][i],
        Cell::Occupied(Player::X) => 'X',
        Cell::Occupied(Player::O) => 'O',
    }
}

/// One row of the text board, from the square `start`.
pub open spec fn row_text(cells: Seq<Cell>, start: int) -> Seq<char> {
    seq![
        ' ',
        glyph(cells, start),
        ' ',
        '|',
        ' ',
        glyph(cells, start + 1),
        ' ',
        '|',
        ' ',
        glyph(cells, start + 2),
        ' ',
        '\n',
    ]
}

/// The text board: three rows with a rule between them, in a code fence.
pub open spec fn board_text(cells: Seq<Cell>) -> Seq<char> {
    "```\n"@ + row_text(cells, 0) + "---|---|---\n"@ + row_text(cells, 3) + "---|---|---\n"@
        + row_text(cells, 6) + "```"@
}

/// A game that has just begun.
pub open spec fn fresh(x_id: u64, o_id: Option<u64>, channel_id: u64) -> GameView {
    GameView {
        cells: Seq::new(9, |i: int| Cell::Empty),
        current: Player::X,
        x_id,
        o_id,
        message_id: None,
        channel_id,
    }
}

impl Player {
    /// The other player.
    pub fn opponent(self) -> (p: Player)
        ensures
            p == other(self),
    {
        match self {
            Player::X => Player::O,
            Player::O => Player::X,
        }
    }

    /// The mark as shown in messages.
    pub fn symbol(self) -> (s: String)
        ensures
            s@ == (match self {
                Player::X => "❌"@,
                Player::O => "⭕"@,
            }),
    {
        match self {
            Player::X => String::from_str("❌"),
            Player::O => String::from_str("⭕"),
        }
    }
}

impl Cell {
    /// The square as shown in messages.
    pub fn symbol(self) -> (s: String)
        ensures
            s@ == (match self {
                Cell::Empty => "⬜"@,
                Cell::Occupied(Player::X) => "❌"@,
                Cell::Occupied(Player::O) => "⭕"@,
            }),
    {
        match self {
            Cell::Empty => String::from_str("⬜"),
            Cell::Occupied(p) => p.symbol(),
        }
    }
}

impl MoveError {
    /// The refusal in words.
    pub fn message(self) -> (s: String)
        ensures
            s@ == (match self {
                MoveError::InvalidPosition => "Position must be between 1-9!"@,
                MoveError::CellOccupied => "That position is already taken!"@,
            }),
    {
        match self {
            MoveError::InvalidPosition => String::from_str("Position must be between 1-9!"),
            MoveError::CellOccupied => String::from_str("That position is already taken!"),
        }
    }
}

/// A game of Tic-Tac-Toe between two people, or one person and the
/// synthetic opponent.
#[derive(Clone, Copy, Debug)]
pub struct TicTacToeGame {
    board: [[Cell; 3]; 3],
    current_player: Player,
    player_x_id: u64,
    player_o_id: Option<u64>,
    message_id: Option<u64>,
    channel_id: u64,
}

impl View for TicTacToeGame {
    type V = GameView;

    closed spec fn view(&self) -> GameView {
        GameView {
            cells: Seq::new(9, |i: int| self.board[i / 3][i % 3]),
            current: self.current_player,
            x_id: self.player_x_id,
            o_id: self.player_o_id,
            message_id: self.message_id,
            channel_id: self.channel_id,
        }
    }
}

/// The three squares of line `k`, as positions from 0.
fn line_at(k: usize) -> (l: (usize, usize, usize))
    requires
        k < 8,
    ensures
        (l.0 as int, l.1 as int, l.2 as int) == line(k as int),
        l.0 < 9,
        l.1 < 9,
        l.2 < 9,
{
    if k == 0 {
        (0, 1, 2)
    } else if k == 1 {
        (3, 4, 5)
    } else if k == 2 {
        (6, 7, 8)
    } else if k == 3 {
        (0, 3, 6)
    } else if k == 4 {
        (1, 4, 7)
    } else if k == 5 {
        (2, 5, 8)
    } else if k == 6 {
        (0, 4, 8)
    } else {
        (2, 4, 6)
    }
}

impl TicTacToeGame {
    /// The board of every game has nine squares.
    pub proof fn lemma_nine_squares(&self)
        ensures
            self@.cells.len() == 9,
    {
    }

    /// A game between two people. X moves first.
    pub fn new_two_player(player_x_id: u64, player_o_id: u64, channel_id: u64) -> (g: Self)
        ensures
            g@ == (GameView {
                cells: Seq::new(9, |i: int| Cell::Empty),
                current: Player::X,
                x_id: player_x_id,
                o_id: Some(player_o_id),
                message_id: None,
                channel_id,
            }),
    {
        let g = TicTacToeGame {
            board: [[Cell::Empty; 3]; 3],
            current_player: Player::X,
            player_x_id,
            player_o_id: Some(player_o_id),
            message_id: None,
            channel_id,
        };
        assert(g@.cells =~= Seq::new(9, |i: int| Cell::Empty));
        g
    }

    /// A game against the synthetic opponent, which plays O.
    pub fn new_vs_ai(player_x_id: u64, channel_id: u64) -> (g: Self)
        ensures
            g@ == (GameView {
                cells: Seq::new(9, |i: int| Cell::Empty),
                current: Player::X,
                x_id: player_x_id,
                o_id: None,
                message_id: None,
                channel_id,
            }),
    {
        let g = TicTacToeGame {
            board: [[Cell::Empty; 3]; 3],
            current_player: Player::X,
            player_x_id,
            player_o_id: None,
            message_id: None,
            channel_id,
        };
        assert(g@.cells =~= Seq::new(9, |i: int| Cell::Empty));
        g
    }

    /// The square at `index`, counted from 0 row by row.
    pub fn cell(&self, index: usize) -> (c: Cell)
        requires
            index < 9,
        ensures
            self@.cells.len() == 9,
            c == self@.cells[index as int],
    {
        self.board[index / 3][index % 3]
    }

    pub fn current_player(&self) -> (p: Player)
        ensures
            p == self@.current,
    {
        self.current_player
    }

    pub fn player_x_id(&self) -> (id: u64)
        ensures
            id == self@.x_id,
    {
        self.player_x_id
    }

    pub fn player_o_id(&self) -> (id: Option<u64>)
        ensures
            id == self@.o_id,
    {
        self.player_o_id
    }

    /// Whether O is the synthetic opponent.
    pub fn is_ai_game(&self) -> (b: bool)
        ensures
            b == (self@.o_id is None),
    {
        self.player_o_id.is_none()
    }

    pub fn message_id(&self) -> (id: Option<u64>)
        ensures
            id == self@.message_id,
    {
        self.message_id
    }

    pub fn channel_id(&self) -> (id: u64)
        ensures
            id == self@.channel_id,
    {
        self.channel_id
    }

    /// Remembers the message that shows the board.
    pub fn set_message_id(&mut self, message_id: Option<u64>)
        ensures
            final(self)@ == (GameView { message_id, ..old(self)@ }),
    {
        self.message_id = message_id;
        assert(self@.cells =~= old(self)@.cells);
    }

    /// Places the current player's mark at `position`, 1 to 9. The turn
    /// does not pass. A refused move changes nothing.
    pub fn make_move(&mut self, position: usize) -> (r: Result<(), MoveError>)
        ensures
            old(self)@.cells.len() == 9,
            final(self)@.cells.len() == 9,
            r == move_verdict(old(self)@.cells, position as int),
            r is Ok ==> final(self)@ == place(old(self)@, position as int),
            r is Err ==> *final(self) == *old(self),
    {
        if position < 1 || position > 9 {
            return Err(MoveError::InvalidPosition);
        }
        let row = (position - 1) / 3;
        let col = (position - 1) % 3;
        if self.board[row][col] != Cell::Empty {
            return Err(MoveError::CellOccupied);
        }
        self.board[row][col] = Cell::Occupied(self.current_player);
        assert(self@.cells =~= place(old(self)@, position as int).cells);
        Ok(())
    }

    /// The player whose marks fill line `k`.
    fn owner_of_line(&self, k: usize) -> (r: Option<Player>)
        requires
            k < 8,
        ensures
            r == line_owner(self@.cells, k as int),
    {
        let (a, b, c) = line_at(k);
        match self.cell(a) {
            Cell::Occupied(p) => {
                if self.cell(b) == Cell::Occupied(p) && self.cell(c) == Cell::Occupied(p) {
                    Some(p)
                } else {
                    None
                }
            },
            Cell::Empty => None,
        }
    }

    /// The winner, if a line of three is filled by one player.
    pub fn check_winner(&self) -> (r: Option<Player>)
        ensures
            self@.cells.len() == 9,
            r == winner(self@.cells),
    {
        let mut k: usize = 8;
        let mut found: Option<Player> = None;
        while k > 0
            invariant
                k <= 8,
                found == first_owner(self@.cells, k as int),
            decreases k,
        {
            k -= 1;
            match self.owner_of_line(k) {
                Some(p) => {
                    found = Some(p);
                },
                None => {},
            }
        }
        found
    }

    /// Whether every square holds a mark.
    pub fn is_board_full(&self) -> (b: bool)
        ensures
            self@.cells.len() == 9,
            b == full(self@.cells),
    {
        let mut i: usize = 0;
        while i < 9
            invariant
                i <= 9,
                forall|j: int| 0 <= j < i ==> self@.cells[j] != Cell::Empty,
            decreases 9 - i,
        {
            if self.cell(i) == Cell::Empty {
                return false;
            }
            i += 1;
        }
        true
    }

    /// Where the game stands.
    pub fn status(&self) -> (s: Status)
        ensures
            self@.cells.len() == 9,
            s == status(self@.cells),
    {
        match self.check_winner() {
            Some(p) => Status::Won(p),
            None => if self.is_board_full() {
                Status::Tied
            } else {
                Status::InProgress
            },
        }
    }

    /// Passes the turn to the other player.
    pub fn switch_player(&mut self)
        ensures
            final(self)@ == pass(old(self)@),
    {
        self.current_player = self.current_player.opponent();
        assert(self@.cells =~= old(self)@.cells);
    }

    /// The lowest position whose marking would give `player` a win.
    pub fn find_winning_move(&self, player: Player) -> (r: Option<usize>)
        ensures
            r matches Some(p) ==> winning_move_from(self@.cells, player, 1) == Some(p as int),
            r is None ==> winning_move_from(self@.cells, player, 1) is None,
    {
        let mut pos: usize = 9;
        let mut found: Option<usize> = None;
        while pos > 0
            invariant
                pos <= 9,
                found matches Some(p) ==> winning_move_from(self@.cells, player, pos + 1) == Some(
                    p as int,
                ),
                found is None ==> winning_move_from(self@.cells, player, pos + 1) is None,
            decreases pos,
        {
            if self.cell(pos - 1) == Cell::Empty {
                let mut trial = *self;
                trial.board[(pos - 1) / 3][(pos - 1) % 3] = Cell::Occupied(player);
                assert(trial@.cells =~= self@.cells.update(pos - 1, Cell::Occupied(player)));
                match trial.check_winner() {
                    Some(w) => {
                        if w == player {
                            found = Some(pos);
                        }
                    },
                    None => {},
                }
            }
            pos -= 1;
        }
        found
    }

    /// The lowest empty position.
    fn first_empty(&self) -> (r: Option<usize>)
        ensures
            r matches Some(p) ==> first_empty_from(self@.cells, 1) == Some(p as int),
            r is None ==> first_empty_from(self@.cells, 1) is None,
    {
        let mut pos: usize = 9;
        let mut found: Option<usize> = None;
        while pos > 0
            invariant
                pos <= 9,
                found matches Some(p) ==> first_empty_from(self@.cells, pos + 1) == Some(p as int),
                found is None ==> first_empty_from(self@.cells, pos + 1) is None,
            decreases pos,
        {
            if self.cell(pos - 1) == Cell::Empty {
                found = Some(pos);
            }
            pos -= 1;
        }
        found
    }

    /// The square the synthetic opponent takes; `None` on a full board.
    pub fn get_ai_move(&self) -> (r: Option<usize>)
        ensures
            r matches Some(p) ==> ai_choice(self@.cells) == Some(p as int),
            r is None ==> ai_choice(self@.cells) is None,
    {
        if let Some(pos) = self.find_winning_move(Player::O) {
            return Some(pos);
        }
        if let Some(pos) = self.find_winning_move(Player::X) {
            return Some(pos);
        }
        if self.cell(4) == Cell::Empty {
            return Some(5);
        }
        if self.cell(0) == Cell::Empty {
            return Some(1);
        }
        if self.cell(2) == Cell::Empty {
            return Some(3);
        }
        if self.cell(6) == Cell::Empty {
            return Some(7);
        }
        if self.cell(8) == Cell::Empty {
            return Some(9);
        }
        self.first_empty()
    }

    /// Whose turn it is, by identifier; `None` for the synthetic opponent.
    pub fn get_current_player_id(&self) -> (id: Option<u64>)
        ensures
            id == current_id(self@),
    {
        match self.current_player {
            Player::X => Some(self.player_x_id),
            Player::O => self.player_o_id,
        }
    }

    /// The character shown for the square `index`.
    fn glyph_at(&self, index: usize) -> (c: char)
        requires
            index < 9,
        ensures
            c == glyph(self@.cells, index as int),
    {
        match self.cell(index) {
            Cell::Empty => {
                let digits: [char; 9] = ['1', '2', '3', '4', '5', '6', '7', '8', '9'];
                digits[index]
            },
            Cell::Occupied(Player::X) => 'X',
            Cell::Occupied(Player::O) => 'O',
        }
    }

    /// Appends the row that begins at the square `start`.
    fn push_row(&self, out: &mut String, start: usize)
        requires
            start <= 6,
        ensures
            final(out)@ == old(out)@ + row_text(self@.cells, start as int),
    {
        out.push(' ');
        out.push(self.glyph_at(start));
        out.push(' ');
        out.push('|');
        out.push(' ');
        out.push(self.glyph_at(start + 1));
        out.push(' ');
        out.push('|');
        out.push(' ');
        out.push(self.glyph_at(start + 2));
        out.push(' ');
        out.push('\n');
        assert(out@ =~= old(out)@ + row_text(self@.cells, start as int));
    }

    /// The board as text: marks where squares are taken, positions where
    /// they are free.
    pub fn display_board(&self) -> (s: String)
        ensures
            s@ == board_text(self@.cells),
    {
        let mut s = String::from_str("```\n");
        self.push_row(&mut s, 0);
        s.append("---|---|---\n");
        self.push_row(&mut s, 3);
        s.append("---|---|---\n");
        self.push_row(&mut s, 6);
        s.append("```");
        s
    }

    /// After a mark was placed: reports a win or a tie, or else passes the
    /// turn.
    fn settle(&mut self, reply: Option<usize>) -> (r: TurnReport)
        ensures
            (final(self)@, r) == settle(old(self)@, reply),
    {
        match self.status() {
            Status::Won(p) => TurnReport::Won { winner: p, reply },
            Status::Tied => TurnReport::Tied { reply },
            Status::InProgress => {
                self.switch_player();
                TurnReport::Next { reply }
            },
        }
    }

    /// Resolves one whole turn asked for by `user_id`; see [`turn`]. A
    /// refused turn leaves the game exactly as it was.
    pub fn take_turn(&mut self, user_id: u64, position: usize) -> (r: Result<TurnReport, TurnError>)
        ensures
            old(self)@.cells.len() == 9,
            final(self)@.cells.len() == 9,
            (final(self)@, r) == turn(old(self)@, user_id, position as int),
            r is Err ==> *final(self) == *old(self),
    {
        let expected = self.get_current_player_id();
        let in_turn = match expected {
            Some(id) => id == user_id,
            None => false,
        };
        if !in_turn {
            return Err(TurnError::NotYourTurn { expected });
        }
        match self.make_move(position) {
            Err(e) => {
                return Err(TurnError::Move(e));
            },
            Ok(()) => {},
        }
        let first = self.settle(None);
        let ai_replies = match first {
            TurnReport::Next { .. } => self.is_ai_game() && self.current_player == Player::O,
            _ => false,
        };
        if !ai_replies {
            return Ok(first);
        }
        match self.get_ai_move() {
            None => Ok(first),
            Some(a) => {
                proof {
                    lemma_ai_choice_is_free(self@.cells);
                }
                let placed = self.make_move(a);
                assert(placed is Ok);
                let second = self.settle(Some(a));
                Ok(second)
            },
        }
    }
}

/// A winning move found from `from` on is a free square at or after it.
pub proof fn lemma_winning_move(cells: Seq<Cell>, p: Player, from: int)
    ensures
        winning_move_from(cells, p, from) matches Some(a) ==> from <= a && completes(cells, p, a),
    decreases 10 - from,
{
    if 1 <= from <= 9 && !completes(cells, p, from) {
        lemma_winning_move(cells, p, from + 1);
    }
}

/// The first empty square from `from` on is one, and none lies before it.
pub proof fn lemma_first_empty(cells: Seq<Cell>, from: int)
    requires
        1 <= from,
    ensures
        first_empty_from(cells, from) matches Some(a) ==> from <= a <= 9 && cells[a - 1]
            == Cell::Empty,
        first_empty_from(cells, from) is None ==> forall|i: int|
            from - 1 <= i < 9 && 0 <= i ==> cells[i] != Cell::Empty,
    decreases 10 - from,
{
    if 1 <= from <= 9 && cells[from - 1] != Cell::Empty {
        lemma_first_empty(cells, from + 1);
    }
}

/// The synthetic opponent only ever picks a free square of the board.
pub proof fn lemma_ai_choice_is_free(cells: Seq<Cell>)
    ensures
        ai_choice(cells) matches Some(a) ==> move_verdict(cells, a) is Ok,
{
    lemma_winning_move(cells, Player::O, 1);
    lemma_winning_move(cells, Player::X, 1);
    lemma_first_empty(cells, 1);
}

/// The synthetic opponent has a move exactly while a square is free.
pub proof fn law_ai_moves_unless_full(cells: Seq<Cell>)
    ensures
        ai_choice(cells) is None <==> full(cells),
{
    lemma_winning_move(cells, Player::O, 1);
    lemma_winning_move(cells, Player::X, 1);
    lemma_first_empty(cells, 1);
    if ai_choice(cells) is None {
    }
}

/// A refused turn, be it out of order or onto a square that cannot be
/// marked, leaves the game unchanged.
pub proof fn law_refused_turn_changes_nothing(g: GameView, user: u64, position: int)
    ensures
        turn(g, user, position).1 is Err ==> turn(g, user, position).0 == g,
        current_id(g) != Some(user) ==> turn(g, user, position).1 == Err::<
            TurnReport,
            TurnError,
        >(TurnError::NotYourTurn { expected: current_id(g) }),
{
}

/// A mark placed on an empty square never takes a filled line away from
/// its owner.
pub proof fn lemma_lines_are_kept(cells: Seq<Cell>, position: int, p: Player, k: int)
    requires
        cells.len() == 9,
        0 <= k < 8,
        move_verdict(cells, position) is Ok,
        line_owner(cells, k) is Some,
    ensures
        line_owner(cells.update(position - 1, Cell::Occupied(p)), k) == line_owner(cells, k),
{
}

/// A game that is over stays over: no turn leads from a win or a tie back
/// to a game in progress.
pub proof fn law_finished_game_stays_finished(g: GameView, user: u64, position: int)
    requires
        g.cells.len() == 9,
        !(status(g.cells) is InProgress),
    ensures
        !(status(turn(g, user, position).0.cells) is InProgress),
{
    let after = turn(g, user, position).0;
    if after != g {
        law_winner_owns_a_line(g.cells);
        if winner(g.cells) is Some {
            let p = winner(g.cells)->0;
            let k = choose|k: int| 0 <= k < 8 && line_owner(g.cells, k) == Some(p);
            lemma_lines_are_kept(g.cells, position, g.current, k);
            let placed = place(g, position);
            law_winner_owns_a_line(placed.cells);
            assert(line_owner(placed.cells, k) is Some);
        }
    }
}

/// The board on which line `k` is filled with the marks of `p` and every
/// other square is empty.
pub open spec fn lone_line(k: int, p: Player) -> Seq<Cell> {
    Seq::new(
        9,
        |i: int|
            if i == line(k).0 || i == line(k).1 || i == line(k).2 {
                Cell::Occupied(p)
            } else {
                Cell::Empty
            },
    )
}

/// Each of the eight lines, filled with one mark on an otherwise empty
/// board, is a win for that mark.
pub proof fn law_every_line_wins(k: int, p: Player)
    requires
        0 <= k < 8,
    ensures
        status(lone_line(k, p)) == Status::Won(p),
{
    reveal_with_fuel(first_owner, 9);
    let cells = lone_line(k, p);
    assert(line_owner(cells, k) == Some(p));
    assert forall|j: int| 0 <= j < 8 && j != k implies line_owner(cells, j) is None by {}
}

/// A full board on which no line is filled by one mark is a tie.
pub proof fn law_full_board_without_line_ties(cells: Seq<Cell>)
    requires
        full(cells),
        forall|k: int| 0 <= k < 8 ==> line_owner(cells, k) is None,
    ensures
        status(cells) == Status::Tied,
{
    reveal_with_fuel(first_owner, 9);
}

/// A winner owns one of the eight lines, and where nobody wins no line is
/// filled by one mark.
pub proof fn law_winner_owns_a_line(cells: Seq<Cell>)
    ensures
        winner(cells) matches Some(p) ==> exists|k: int| 0 <= k < 8 && line_owner(cells, k) == Some(p),
        winner(cells) is None <==> forall|k: int| 0 <= k < 8 ==> line_owner(cells, k) is None,
{
    reveal_with_fuel(first_owner, 9);
}

/// The person asked to play O.
#[derive(Clone, Copy, PartialEq, Eq, Structural, Debug)]
pub struct Opponent {
    pub id: u64,
    /// Whether the account is an automated one.
    pub is_bot: bool,
}

/// Why a game could not be started.
#[derive(Clone, Copy, PartialEq, Eq, Structural, Debug)]
pub enum ChallengeError {
    /// The challenger already has a game.
    AlreadyActive,
    /// The challenger named themselves.
    SelfChallenge,
    /// The opponent is an automated account.
    BotOpponent,
    /// The opponent already has a game.
    OpponentBusy,
}

/// Why a move could not be played.
#[derive(Clone, Copy, PartialEq, Eq, Structural, Debug)]
pub enum PlayError {
    /// The player has no game.
    NotFound,
    /// The game refused the turn.
    Turn(TurnError),
}

/// Whether `user` may start a game against `opponent` (`None`: against the
/// synthetic opponent). The checks are made in this order.
pub open spec fn challenge_verdict(
    m: Map<u64, Entry<TicTacToeGame>>,
    user: u64,
    opponent: Option<Opponent>,
) -> Result<(), ChallengeError> {
    if m.contains_key(user) {
        Err(ChallengeError::AlreadyActive)
    } else {
        match opponent {
            None => Ok(()),
            Some(o) => if o.id == user {
                Err(ChallengeError::SelfChallenge)
            } else if o.is_bot {
                Err(ChallengeError::BotOpponent)
            } else if m.contains_key(o.id) {
                Err(ChallengeError::OpponentBusy)
            } else {
                Ok(())
            },
        }
    }
}

/// Every registered game is still in progress and is registered under its
/// own players: under X, and under O where O is a person.
pub open spec fn lobby_inv(m: Map<u64, Entry<TicTacToeGame>>) -> bool {
    forall|k: u64| #[trigger]
        m.contains_key(k) ==> {
            let g = m[k].payload@;
            &&& g.cells.len() == 9
            &&& status(g.cells) is InProgress
            &&& (k == g.x_id && m[k].partner == g.o_id) || (g.o_id == Some(k) && m[k].partner
                == Some(g.x_id))
        }
}

/// Starts a game for `user`, who plays X, against `opponent` or, without
/// one, against the synthetic opponent. Both players are checked before
/// either is registered; a refusal registers nobody.
pub fn start_game(
    store: &mut SessionStore<TicTacToeGame>,
    user: u64,
    opponent: Option<Opponent>,
    channel_id: u64,
) -> (r: Result<TicTacToeGame, ChallengeError>)
    requires
        old(store).wf(),
    ensures
        final(store).wf(),
        r matches Err(e) ==> challenge_verdict(old(store)@, user, opponent) == Err::<
            (),
            ChallengeError,
        >(e) && final(store)@ == old(store)@,
        r matches Ok(g) ==> challenge_verdict(old(store)@, user, opponent) is Ok && (match opponent {
            None => g@ == fresh(user, None, channel_id) && final(store)@ == model_start(
                old(store)@,
                user,
                g,
            ),
            Some(o) => g@ == fresh(user, Some(o.id), channel_id) && final(store)@
                == model_start_pair(old(store)@, user, o.id, g),
        }),
        lobby_inv(old(store)@) ==> lobby_inv(final(store)@),
{
    if store.contains(user) {
        return Err(ChallengeError::AlreadyActive);
    }
    proof {
        reveal_with_fuel(first_owner, 9);
    }
    match opponent {
        None => {
            let game = TicTacToeGame::new_vs_ai(user, channel_id);
            let started = store.start(user, game);
            assert(started is Ok);
            assert(lobby_inv(old(store)@) ==> lobby_inv(store@)) by {
                if lobby_inv(old(store)@) {
                    assert(!full(game@.cells)) by {
                        assert(game@.cells[0] == Cell::Empty);
                    }
                    assert forall|k: u64| #[trigger] store@.contains_key(k) implies ({
                        let g = store@[k].payload@;
                        &&& g.cells.len() == 9
                        &&& status(g.cells) is InProgress
                        &&& (k == g.x_id && store@[k].partner == g.o_id) || (g.o_id == Some(k)
                            && store@[k].partner == Some(g.x_id))
                    }) by {
                        if k != user {
                            assert(old(store)@.contains_key(k));
                        }
                    }
                }
            }
            Ok(game)
        },
        Some(o) => {
            if o.id == user {
                return Err(ChallengeError::SelfChallenge);
            }
            if o.is_bot {
                return Err(ChallengeError::BotOpponent);
            }
            if store.contains(o.id) {
                return Err(ChallengeError::OpponentBusy);
            }
            let game = TicTacToeGame::new_two_player(user, o.id, channel_id);
            let started = store.start_pair(user, o.id, game);
            assert(started is Ok);
            assert(lobby_inv(old(store)@) ==> lobby_inv(store@)) by {
                if lobby_inv(old(store)@) {
                    assert(!full(game@.cells)) by {
                        assert(game@.cells[0] == Cell::Empty);
                    }
                    assert forall|k: u64| #[trigger] store@.contains_key(k) implies ({
                        let g = store@[k].payload@;
                        &&& g.cells.len() == 9
                        &&& status(g.cells) is InProgress
                        &&& (k == g.x_id && store@[k].partner == g.o_id) || (g.o_id == Some(k)
                            && store@[k].partner == Some(g.x_id))
                    }) by {
                        if k != user && k != o.id {
                            assert(old(store)@.contains_key(k));
                        }
                    }
                }
            }
            Ok(game)
        },
    }
}

/// Plays `position` for `user` in the game they are registered in.
///
/// Without a game, or when the game refuses the turn, nothing changes. A
/// turn that ends the game removes it for both players; any other turn
/// stores the new state, which both players then see.
pub fn play(store: &mut SessionStore<TicTacToeGame>, user: u64, position: usize) -> (r: Result<
    (TicTacToeGame, TurnReport),
    PlayError,
>)
    requires
        old(store).wf(),
    ensures
        final(store).wf(),
        !old(store)@.contains_key(user) ==> r == Err::<(TicTacToeGame, TurnReport), PlayError>(
            PlayError::NotFound,
        ),
        r is Err ==> final(store)@ == old(store)@,
        old(store)@.contains_key(user) ==> ({
            let outcome = turn(old(store)@[user].payload@, user, position as int);
            match outcome.1 {
                Err(e) => r == Err::<(TicTacToeGame, TurnReport), PlayError>(PlayError::Turn(e)),
                Ok(report) => r matches Ok((game, said)) && said == report && game@ == outcome.0
                    && final(store)@ == if report is Next {
                    model_set(old(store)@, user, game)
                } else {
                    model_end(old(store)@, user)
                },
            }
        }),
        lobby_inv(old(store)@) ==> lobby_inv(final(store)@),
{
    let mut game = match store.get(user) {
        None => {
            return Err(PlayError::NotFound);
        },
        Some(g) => *g,
    };
    let ghost before = game@;
    match game.take_turn(user, position) {
        Err(e) => Err(PlayError::Turn(e)),
        Ok(report) => {
            match report {
                TurnReport::Next { .. } => {
                    let _ = store.replace(user, game);
                },
                _ => {
                    let _ = store.end(user);
                },
            }
            proof {
                if lobby_inv(old(store)@) {
                    old(store).lemma_paired();
                    lemma_turn_keeps_players(before, user, position as int);
                    assert forall|k: u64| #[trigger] store@.contains_key(k) implies ({
                        let g = store@[k].payload@;
                        &&& g.cells.len() == 9
                        &&& status(g.cells) is InProgress
                        &&& (k == g.x_id && store@[k].partner == g.o_id) || (g.o_id == Some(k)
                            && store@[k].partner == Some(g.x_id))
                    }) by {
                        assert(old(store)@.contains_key(k));
                        assert(old(store)@.contains_key(user));
                    }
                }
            }
            Ok((game, report))
        },
    }
}

/// Remembers, for the game of `user`, the message that shows its board.
pub fn record_message(store: &mut SessionStore<TicTacToeGame>, user: u64, message_id: u64) -> (r:
    Result<(), PlayError>)
    requires
        old(store).wf(),
    ensures
        final(store).wf(),
        r is Ok == old(store)@.contains_key(user),
        r matches Err(e) ==> e == PlayError::NotFound && final(store)@ == old(store)@,
        r is Ok ==> final(store)@.contains_key(user) && final(store)@[user].payload@ == (GameView {
            message_id: Some(message_id),
            ..old(store)@[user].payload@
        }) && final(store)@ == model_set(old(store)@, user, final(store)@[user].payload),
        lobby_inv(old(store)@) ==> lobby_inv(final(store)@),
{
    let mut game = match store.get(user) {
        None => {
            return Err(PlayError::NotFound);
        },
        Some(g) => *g,
    };
    game.set_message_id(Some(message_id));
    let _ = store.replace(user, game);
    proof {
        if lobby_inv(old(store)@) {
            old(store).lemma_paired();
            assert forall|k: u64| #[trigger] store@.contains_key(k) implies ({
                let g = store@[k].payload@;
                &&& g.cells.len() == 9
                &&& status(g.cells) is InProgress
                &&& (k == g.x_id && store@[k].partner == g.o_id) || (g.o_id == Some(k)
                    && store@[k].partner == Some(g.x_id))
            }) by {
                assert(old(store)@.contains_key(k));
                assert(old(store)@.contains_key(user));
            }
        }
    }
    Ok(())
}

/// A turn changes neither the players nor the size of the board, and a turn
/// reported as `Next` leaves the game in progress.
pub proof fn lemma_turn_keeps_players(g: GameView, user: u64, position: int)
    requires
        g.cells.len() == 9,
    ensures
        ({
            let after = turn(g, user, position).0;
            &&& after.x_id == g.x_id
            &&& after.o_id == g.o_id
            &&& after.channel_id == g.channel_id
            &&& after.message_id == g.message_id
            &&& after.cells.len() == 9
            &&& turn(g, user, position).1 matches Ok(TurnReport::Next { .. }) ==> status(
                after.cells,
            ) is InProgress
        }),
{
    lemma_ai_choice_is_free(settle(place(g, position), None).0.cells);
}

} // verus!
