//! The simulation engine: the snake, the reward, and the per-tick
//! state-transition algorithm on the toroidal board.

use vstd::prelude::*;

verus! {

use crate::grid::{next_cell, spec_next_index, Direction};
use crate::rng::RandomSource;
use vstd::set_lib::{lemma_int_range, lemma_len_subset, set_int_range};
use vstd::string::StringExecFns;

/// One cell of the snake's body: a flat index into the grid.
#[derive(Clone, Copy, PartialEq, Eq, Structural, Debug)]
pub struct SnakeCell(pub usize);

/// The snake: its body cells, head first and tail last, and the direction
/// it currently faces.
pub struct Snake {
    pub body: Vec<SnakeCell>,
    pub direction: Direction,
}

/// Whether a session is still running or how it ended.
#[derive(Clone, Copy, PartialEq, Eq, Structural, Debug)]
pub enum GameState {
    Won,
    Lost,
    Playing,
}

/// Whether some segment of `body` sits on the flat index `cell`.
pub open spec fn occupies(body: Seq<SnakeCell>, cell: int) -> bool {
    exists|i: int| 0 <= i < body.len() && body[i].0 == cell
}

/// The body after one tick's shift: `head` in front, and every other
/// segment in the cell its predecessor held before the tick.
pub open spec fn spec_shifted(body: Seq<SnakeCell>, head: int) -> Seq<SnakeCell> {
    Seq::new(
        body.len(),
        |i: int|
            if i == 0 {
                SnakeCell(head as usize)
            } else {
                body[i - 1]
            },
    )
}

/// Whether the head of `body` collides with any later segment.
pub open spec fn spec_collides(body: Seq<SnakeCell>) -> bool {
    exists|i: int| 1 <= i < body.len() && (#[trigger] body[i]).0 == body[0].0
}

impl Snake {
    /// Builds a snake of `size` segments lying backward from `spawn_point`
    /// (`spawn_point`, `spawn_point - 1`, ...), facing down.
    pub fn new(spawn_point: usize, size: usize) -> (r: Snake)
        requires
            1 <= size,
            size - 1 <= spawn_point,
        ensures
            r.body@.len() == size,
            forall|i: int| 0 <= i < size ==> (#[trigger] r.body@[i]).0 == spawn_point - i,
            r.direction == Direction::Down,
    {
        let mut body: Vec<SnakeCell> = Vec::new();
        let mut i: usize = 0;
        while i < size
            invariant
                i <= size,
                size - 1 <= spawn_point,
                body@.len() == i,
                forall|j: int| 0 <= j < i ==> (#[trigger] body@[j]).0 == spawn_point - j,
            decreases size - i,
        {
            body.push(SnakeCell(spawn_point - i));
            i = i + 1;
        }
        Snake { body, direction: Direction::Down }
    }
}

/// The aggregate root: the playfield, the snake, the pending turn, the
/// reward, the score baseline, the game state, and the injected random
/// source.
pub struct World<R: RandomSource> {
    pub width: usize,
    pub size: usize,
    pub snake: Snake,
    pub next_cell: Option<SnakeCell>,
    pub reward_cell: Option<usize>,
    pub initial_length: usize,
    pub game_state: Option<GameState>,
    pub rng: R,
}

/// A body of fewer than `size` segments leaves at least one of the board's
/// `size` cells free.
proof fn lemma_free_cell_exists(body: Seq<SnakeCell>, size: int)
    requires
        body.len() < size,
    ensures
        exists|c: int| 0 <= c < size && !occupies(body, c),
{
    broadcast use vstd::seq_lib::seq_to_set_is_finite;
    broadcast use vstd::set::group_set_axioms;

    let values = body.map_values(|sc: SnakeCell| sc.0 as int);
    let occupied = values.to_set();
    values.lemma_cardinality_of_set();
    lemma_int_range(0, size);
    if forall|c: int| 0 <= c < size ==> #[trigger] occupies(body, c) {
        assert forall|c: int| set_int_range(0, size).contains(c) implies occupied.contains(
            c,
        ) by {
            assert(occupies(body, c));
            let i = choose|i: int| 0 <= i < body.len() && body[i].0 == c;
            assert(values[i] == c);
            assert(values.contains(c));
        }
        lemma_len_subset(set_int_range(0, size), occupied);
        assert(false);
    }
}

impl<R: RandomSource> World<R> {
    /// Validity of a world: the board is `width x width`, the snake is at
    /// least its spawn length and at most board-sized, every cell named
    /// anywhere lies on the board, the reward (while present) sits on no
    /// body segment, and a pending turn never targets the body's second
    /// segment.
    pub open spec fn wf(self) -> bool {
        &&& 2 <= self.width
        &&& self.size == self.width * self.width
        &&& self.initial_length == 3
        &&& 3 <= self.snake.body@.len() <= self.size
        &&& forall|i: int|
            0 <= i < self.snake.body@.len() ==> (#[trigger] self.snake.body@[i]).0 < self.size
        &&& match self.reward_cell {
            Some(r) => r < self.size && !occupies(self.snake.body@, r as int),
            None => true,
        }
        &&& match self.next_cell {
            Some(c) => c.0 < self.size && c.0 != self.snake.body@[1].0,
            None => true,
        }
    }

    /// Whether the session has ended.
    pub open spec fn spec_terminal(self) -> bool {
        self.game_state == Some(GameState::Won) || self.game_state == Some(GameState::Lost)
    }

    /// The flat index the head will occupy after the next live tick: the
    /// pending turn target if one is stored, else one move from the
    /// current head in the facing direction.
    pub open spec fn spec_incoming_head(self) -> int {
        match self.next_cell {
            Some(c) => c.0 as int,
            None => spec_next_index(
                self.snake.direction,
                self.snake.body@[0].0 as int,
                self.width as int,
                self.size as int,
            ),
        }
    }

    /// Whether the next live tick lands the head on the reward.
    pub open spec fn spec_eats(self) -> bool {
        match self.reward_cell {
            Some(r) => r as int == self.spec_incoming_head(),
            None => false,
        }
    }

    /// Relates a world after one live tick to the world before it: the
    /// head advances to `spec_incoming_head`, the body follows, and
    /// growth, win, loss and reward relocation are decided exactly as the
    /// tick algorithm says.  Only the drawn reward position and the random
    /// source's internal state are left open.
    pub open spec fn spec_step_result(pre: World<R>, post: World<R>) -> bool {
        let head = pre.spec_incoming_head();
        let shifted = spec_shifted(pre.snake.body@, head);
        &&& post.width == pre.width
        &&& post.size == pre.size
        &&& post.initial_length == pre.initial_length
        &&& post.snake.direction == pre.snake.direction
        &&& post.next_cell is None
        &&& if pre.spec_eats() {
            if pre.snake.body@.len() < pre.size {
                &&& post.snake.body@ == shifted.push(pre.snake.body@[1])
                &&& post.reward_cell is Some
                &&& post.game_state == Some(GameState::Playing)
            } else {
                &&& post.snake.body@ == shifted
                &&& post.reward_cell is None
                &&& post.game_state == Some(GameState::Won)
            }
        } else {
            &&& post.snake.body@ == shifted
            &&& post.reward_cell == pre.reward_cell
            &&& post.game_state == if spec_collides(shifted) {
                Some(GameState::Lost)
            } else {
                Some(GameState::Playing)
            }
        }
    }

    /// Builds a world of `width * width` cells with a three-segment snake
    /// lying backward from `spawn_idx`, facing down, the game not yet
    /// started, and a first reward drawn onto a free cell.
    pub fn new(width: usize, spawn_idx: usize, rng: R) -> (r: World<R>)
        requires
            2 <= spawn_idx,
            spawn_idx < width * width,
            width * width <= usize::MAX,
        ensures
            r.wf(),
            r.width == width,
            r.size == width * width,
            r.snake.body@.len() == 3,
            forall|i: int| 0 <= i < 3 ==> (#[trigger] r.snake.body@[i]).0 == spawn_idx - i,
            r.snake.direction == Direction::Down,
            r.next_cell is None,
            r.reward_cell is Some,
            r.initial_length == 3,
            r.game_state is None,
    {
        proof {
            assert(2 <= width) by (nonlinear_arith)
                requires
                    3 <= width * width,
                    0 <= width,
            ;
            assert(4 <= width * width) by (nonlinear_arith)
                requires
                    2 <= width,
            ;
        }
        let size = width * width;
        let initial_length: usize = 3;
        let mut rng = rng;
        let snake = Snake::new(spawn_idx, initial_length);
        let reward_cell = World::<R>::gen_reward_cell(&mut rng, size, &snake.body);
        World {
            width,
            size,
            snake,
            next_cell: None,
            reward_cell,
            initial_length,
            game_state: None,
            rng,
        }
    }

    /// Draws a reward position: uniform draws are rejected while they land
    /// on the body; if a run of draws finds no free cell, a scan places
    /// the reward on the first free cell, which exists because the body
    /// does not fill the board.
    fn gen_reward_cell(rng: &mut R, max: usize, snake_body: &Vec<SnakeCell>) -> (r: Option<usize>)
        requires
            snake_body@.len() < max,
        ensures
            match r {
                Some(c) => c < max && !occupies(snake_body@, c as int),
                None => false,
            },
    {
        let mut attempts: usize = 0;
        while attempts < 32
            invariant
                snake_body@.len() < max,
            decreases 32 - attempts,
        {
            let candidate = rng.draw_uniform(max);
            if !body_contains_from(snake_body, 0, candidate) {
                return Some(candidate);
            }
            attempts = attempts + 1;
        }
        proof {
            lemma_free_cell_exists(snake_body@, max as int);
        }
        let mut c: usize = 0;
        while c < max
            invariant
                c <= max,
                snake_body@.len() < max,
                forall|j: int| 0 <= j < c ==> #[trigger] occupies(snake_body@, j),
            decreases max - c,
        {
            if !body_contains_from(snake_body, 0, c) {
                return Some(c);
            }
            proof {
                assert(occupies(snake_body@, c as int));
            }
            c = c + 1;
        }
        proof {
            lemma_free_cell_exists(snake_body@, max as int);
            let w = choose|j: int| 0 <= j < max && !occupies(snake_body@, j);
            assert(occupies(snake_body@, w));
        }
        None
    }

    /// The total number of cells on the board.
    pub fn size(&self) -> (r: usize)
        ensures
            r == self.size,
    {
        self.size
    }

    /// How many segments the snake has grown since spawn.
    pub fn score(&self) -> (r: usize)
        requires
            self.wf(),
        ensures
            r as int == self.snake.body@.len() - self.initial_length as int,
    {
        self.snake_length() - self.initial_length
    }

    /// The reward's flat index, or `None` once the game has been won.
    pub fn reward_cell(&self) -> (r: Option<usize>)
        ensures
            r == self.reward_cell,
    {
        self.reward_cell
    }

    /// The game state, or `None` while the game has not started.
    pub fn game_state(&self) -> (r: Option<GameState>)
        ensures
            r == self.game_state,
    {
        self.game_state
    }

    /// A display string for the current game state.
    pub fn game_state_text(&self) -> (r: String)
        ensures
            r@ == match self.game_state {
                Some(GameState::Playing) => "Playing"@,
                Some(GameState::Won) => "Won"@,
                Some(GameState::Lost) => "Lost"@,
                None => "Waiting..."@,
            },
    {
        match self.game_state {
            Some(GameState::Playing) => String::from_str("Playing"),
            Some(GameState::Won) => String::from_str("Won"),
            Some(GameState::Lost) => String::from_str("Lost"),
            None => String::from_str("Waiting..."),
        }
    }

    /// Advances the simulation one tick.  The first call both starts and
    /// advances the game; once the game is won or lost, every further call
    /// leaves the world untouched; otherwise the tick algorithm of
    /// `spec_step_result` runs.  The body never shrinks.
    pub fn step(&mut self)
        requires
            old(self).wf(),
        ensures
            final(self).wf(),
            old(self).spec_terminal() ==> *final(self) == *old(self),
            !old(self).spec_terminal() ==> Self::spec_step_result(*old(self), *final(self)),
            final(self).snake.body@.len() >= old(self).snake.body@.len(),
    {
        match self.game_state {
            Some(GameState::Playing) => self.play_step(),
            Some(_) => {},
            None => {
                self.game_state = Some(GameState::Playing);
                self.play_step();
            },
        }
    }

    /// One live tick: install the new head, shift the body, detect
    /// self-collision, and handle the reward (growth, relocation, or the
    /// win at a full board).
    #[verifier::loop_isolation(false)]
    fn play_step(&mut self)
        requires
            old(self).wf(),
            old(self).game_state == Some(GameState::Playing),
        ensures
            final(self).wf(),
            Self::spec_step_result(*old(self), *final(self)),
    {
        let ghost pre = *old(self);
        let len = self.snake.body.len();

        // snapshot the body before the shift
        let mut tmp: Vec<SnakeCell> = Vec::new();
        let mut i: usize = 0;
        while i < len
            invariant
                i <= len,
                *self == pre,
                tmp@ == pre.snake.body@.subrange(0, i as int),
            decreases len - i,
        {
            tmp.push(self.snake.body[i]);
            i = i + 1;
        }
        proof {
            assert(tmp@ =~= pre.snake.body@);
        }

        // install the new head, consuming a pending turn if one is stored
        let new_head: SnakeCell;
        match self.next_cell {
            Some(cell) => {
                new_head = cell;
                self.next_cell = None;
            },
            None => {
                let d = self.snake.direction;
                new_head = self.get_next_cell(&d);
            },
        }
        self.snake.body[0] = new_head;
        proof {
            assert(new_head.0 as int == pre.spec_incoming_head());
        }

        // shift every other segment into its predecessor's old cell
        let mut i: usize = 1;
        while i < len
            invariant
                1 <= i <= len,
                self.snake.body@.len() == len,
                self.snake.body@[0] == new_head,
                self.width == pre.width,
                self.size == pre.size,
                self.initial_length == pre.initial_length,
                self.game_state == pre.game_state,
                self.reward_cell == pre.reward_cell,
                self.rng == pre.rng,
                self.next_cell is None,
                self.snake.direction == pre.snake.direction,
                forall|j: int| 1 <= j < i ==> self.snake.body@[j] == tmp@[j - 1],
                forall|j: int| i <= j < len ==> self.snake.body@[j] == tmp@[j],
            decreases len - i,
        {
            self.snake.body[i] = tmp[i - 1];
            i = i + 1;
        }
        let ghost shifted = spec_shifted(pre.snake.body@, pre.spec_incoming_head());
        proof {
            assert(self.snake.body@ =~= shifted);
        }

        // self-collision: the new head may not reappear in the body
        let head_val = self.snake.body[0].0;
        if body_contains_from(&self.snake.body, 1, head_val) {
            self.game_state = Some(GameState::Lost);
        }

        // reward: grow and relocate, or win once the board is full
        let eats = match self.reward_cell {
            Some(r) => r == head_val,
            None => false,
        };
        if eats {
            proof {
                // the reward sat on no old segment, so the shifted tail,
                // drawn entirely from old segments, cannot hold the head
                if spec_collides(shifted) {
                    let i = choose|i: int|
                        1 <= i < shifted.len() && (#[trigger] shifted[i]).0 == shifted[0].0;
                    assert(pre.snake.body@[i - 1].0 == head_val);
                    assert(occupies(pre.snake.body@, head_val as int));
                    assert(false);
                }
            }
            if self.snake.body.len() < self.size {
                let r = World::<R>::gen_reward_cell(&mut self.rng, self.size, &self.snake.body);
                self.reward_cell = r;
                self.snake.body.push(tmp[1]);
                proof {
                    assert(self.snake.body@ =~= shifted.push(pre.snake.body@[1]));
                    assert(shifted[2] == pre.snake.body@[1]);
                    // the appended tail repeats a shifted segment, so the
                    // fresh reward still sits on no segment
                    match self.reward_cell {
                        Some(rc) => {
                            if occupies(self.snake.body@, rc as int) {
                                let i = choose|i: int|
                                    0 <= i < self.snake.body@.len() && self.snake.body@[i].0
                                        == rc;
                                if i < shifted.len() {
                                    assert(shifted[i].0 == rc);
                                } else {
                                    assert(self.snake.body@[i] == shifted[2]);
                                    assert(shifted[2].0 == rc);
                                }
                                assert(occupies(shifted, rc as int));
                                assert(false);
                            }
                        },
                        None => {
                            assert(false);
                        },
                    }
                }
            } else {
                self.game_state = Some(GameState::Won);
                self.reward_cell = None;
            }
        } else {
            proof {
                // a reward the head did not reach sits on no shifted
                // segment: not on the head, and not on the tail, which is
                // drawn entirely from old segments
                match pre.reward_cell {
                    Some(rw) => {
                        if occupies(self.snake.body@, rw as int) {
                            let i = choose|i: int|
                                0 <= i < self.snake.body@.len() && self.snake.body@[i].0 == rw;
                            if i >= 1 {
                                assert(pre.snake.body@[i - 1].0 == rw);
                                assert(occupies(pre.snake.body@, rw as int));
                            }
                            assert(false);
                        }
                    },
                    None => {},
                }
            }
        }
    }

    /// The cell one move from the current head in `direction`.
    fn get_next_cell(&self, direction: &Direction) -> (r: SnakeCell)
        requires
            self.wf(),
        ensures
            r.0 < self.size,
            r.0 as int == spec_next_index(
                *direction,
                self.snake.body@[0].0 as int,
                self.width as int,
                self.size as int,
            ),
    {
        SnakeCell(next_cell(direction, self.snake_head(), self.width, self.size))
    }

    /// Forces the state to Playing without advancing the simulation.
    pub fn start_game(&mut self)
        ensures
            final(self).game_state == Some(GameState::Playing),
            final(self).width == old(self).width,
            final(self).size == old(self).size,
            final(self).snake == old(self).snake,
            final(self).next_cell == old(self).next_cell,
            final(self).reward_cell == old(self).reward_cell,
            final(self).initial_length == old(self).initial_length,
            final(self).rng == old(self).rng,
            old(self).wf() ==> final(self).wf(),
    {
        self.game_state = Some(GameState::Playing);
    }

    /// Requests a turn: the cell one move from the head in `direction`
    /// becomes the pending head for the next tick, unless that cell is the
    /// body's second segment (an immediate reversal), in which case the
    /// world is left unchanged.
    pub fn change_snake_direction(&mut self, direction: Direction)
        requires
            old(self).wf(),
        ensures
            final(self).wf(),
            ({
                let cand = spec_next_index(
                    direction,
                    old(self).snake.body@[0].0 as int,
                    old(self).width as int,
                    old(self).size as int,
                );
                if cand == old(self).snake.body@[1].0 as int {
                    *final(self) == *old(self)
                } else {
                    &&& final(self).next_cell == Some(SnakeCell(cand as usize))
                    &&& final(self).snake.direction == direction
                    &&& final(self).snake.body == old(self).snake.body
                    &&& final(self).width == old(self).width
                    &&& final(self).size == old(self).size
                    &&& final(self).reward_cell == old(self).reward_cell
                    &&& final(self).initial_length == old(self).initial_length
                    &&& final(self).game_state == old(self).game_state
                    &&& final(self).rng == old(self).rng
                }
            }),
    {
        let d = direction;
        let nc = self.get_next_cell(&d);
        if self.snake.body[1].0 == nc.0 {
            return;
        }
        self.next_cell = Some(nc);
        self.snake.direction = direction;
    }

    /// The board's side length in cells.
    pub fn width(&self) -> (r: usize)
        ensures
            r == self.width,
    {
        self.width
    }

    /// The head's flat index.
    pub fn snake_head(&self) -> (r: usize)
        requires
            self.snake.body@.len() >= 1,
        ensures
            r == self.snake.body@[0].0,
    {
        self.snake.body[0].0
    }

    /// The number of segments in the body.
    pub fn snake_length(&self) -> (r: usize)
        ensures
            r == self.snake.body@.len(),
    {
        self.snake.body.len()
    }

    /// Read access to the body sequence, for rendering.
    pub fn snake_cells(&self) -> (r: &Vec<SnakeCell>)
        ensures
            r@ == self.snake.body@,
    {
        &self.snake.body
    }

    /// The reward, while present, sits on no segment of the body.
    pub proof fn lemma_reward_off_body(self)
        requires
            self.wf(),
        ensures
            match self.reward_cell {
                Some(r) => !occupies(self.snake.body@, r as int),
                None => true,
            },
    {
    }

    /// A pending turn target, while present, is never the cell directly
    /// behind the head, so a tick can never reverse the snake onto its own
    /// neck.
    pub proof fn lemma_no_pending_reversal(self)
        requires
            self.wf(),
        ensures
            match self.next_cell {
                Some(c) => c.0 != self.snake.body@[1].0,
                None => true,
            },
    {
    }
}

/// Whether any of `body[from..]` sits on the flat index `cell`.
fn body_contains_from(body: &Vec<SnakeCell>, from: usize, cell: usize) -> (r: bool)
    requires
        from <= body@.len(),
    ensures
        r == exists|i: int| from <= i < body@.len() && body@[i].0 == cell,
{
    let mut i: usize = from;
    while i < body.len()
        invariant
            from <= i <= body@.len(),
            forall|j: int| from <= j < i ==> body@[j].0 != cell,
        decreases body@.len() - i,
    {
        if body[i].0 == cell {
            return true;
        }
        i = i + 1;
    }
    false
}

} // verus!
