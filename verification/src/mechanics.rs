//! The core simulation: the snake and the fruit manager.

use rand::Rng;
use vstd::prelude::*;

verus! {

/// The states of the surrounding game loop; the simulation itself only ever
/// reads and writes `Game` and `Reset` through the input handlers.
#[derive(PartialEq, Eq, Structural, Clone, Copy, Debug)]
pub enum State {
    MainMenu,
    Game,
    Lost,
    Reset,
    Quit,
}

/// The four headings a snake can have; there are no diagonals.
#[derive(PartialEq, Eq, Structural, Clone, Copy, Debug)]
pub enum Direction {
    Up,
    Down,
    Right,
    Left,
}

/// The heading that would reverse `d` in place.
pub open spec fn opposite(d: Direction) -> Direction {
    match d {
        Direction::Up => Direction::Down,
        Direction::Down => Direction::Up,
        Direction::Right => Direction::Left,
        Direction::Left => Direction::Right,
    }
}

/// The heading a `turn` request leaves the snake with: the request wins
/// unless it is the exact reversal of the current heading.
pub open spec fn turn_spec(cur: Direction, requested: Direction) -> Direction {
    if requested == opposite(cur) {
        cur
    } else {
        requested
    }
}

/// One grid cell of movement in heading `d`, as the renderer's axes have it:
/// `x` grows to the right, `y` grows downward.
pub open spec fn step(p: (i32, i32), d: Direction) -> (i32, i32) {
    match d {
        Direction::Right => (((p.0 + 1) as i32), p.1),
        Direction::Left => (((p.0 - 1) as i32), p.1),
        Direction::Up => (p.0, ((p.1 - 1) as i32)),
        Direction::Down => (p.0, ((p.1 + 1) as i32)),
    }
}

/// The step in heading `d` stays within the machine range of a coordinate.
pub open spec fn can_step(p: (i32, i32), d: Direction) -> bool {
    match d {
        Direction::Right => p.0 < i32::MAX,
        Direction::Left => p.0 > i32::MIN,
        Direction::Up => p.1 > i32::MIN,
        Direction::Down => p.1 < i32::MAX,
    }
}

/// The rigid-chain shift of one tick: the head moves one cell in `d` and
/// every other segment takes the position its predecessor held before the
/// tick.
pub open spec fn shifted(b: Seq<(i32, i32)>, d: Direction) -> Seq<(i32, i32)>
    recommends
        b.len() >= 1,
{
    Seq::new(b.len(), |i: int| if i == 0 { step(b[0], d) } else { b[i - 1] })
}

/// The body after one `advance`: the chain shift, plus a new tail segment
/// holding the old tail's position while a growth unit is being consumed.
pub open spec fn advance_body(b: Seq<(i32, i32)>, d: Direction, growth: u32) -> Seq<(i32, i32)>
    recommends
        b.len() >= 1,
{
    if growth > 0 {
        shifted(b, d).push(b.last())
    } else {
        shifted(b, d)
    }
}

pub struct Snake {
    /// Ordered body: index 0 is the head, the last index is the tail.
    pub body: Vec<(i32, i32)>,
    /// Heading applied to the head on the next `advance`.
    pub direction: Direction,
    /// How many future advances still add a segment instead of only shifting.
    pub growth: u32,
}

impl Snake {
    /// The body is never empty.
    pub open spec fn wf(&self) -> bool {
        self.body@.len() >= 1
    }

    pub fn new(position: (i32, i32), size: u32) -> (snake: Snake)
        ensures
            snake.body@ =~= seq![position],
            snake.direction == Direction::Up,
            snake.growth == size,
            snake.wf(),
    {
        let mut body: Vec<(i32, i32)> = Vec::new();
        body.push(position);
        Snake { body, direction: Direction::Up, growth: size }
    }

    /// Sets the pending heading, unless the request is the direct opposite of
    /// the current heading, in which case nothing changes.
    pub fn turn(&mut self, new_dir: Direction)
        ensures
            final(self).body == old(self).body,
            final(self).growth == old(self).growth,
            final(self).direction == turn_spec(old(self).direction, new_dir),
    {
        if (new_dir == Direction::Up && self.direction != Direction::Down)
            || (new_dir == Direction::Down && self.direction != Direction::Up)
            || (new_dir == Direction::Right && self.direction != Direction::Left)
            || (new_dir == Direction::Left && self.direction != Direction::Right)
        {
            self.direction = new_dir;
        }
    }

    fn move_head(&mut self)
        requires
            old(self).wf(),
            can_step(old(self).body@[0], old(self).direction),
        ensures
            final(self).body@ == old(self).body@.update(
                0,
                step(old(self).body@[0], old(self).direction),
            ),
            final(self).direction == old(self).direction,
            final(self).growth == old(self).growth,
    {
        let head = self.body[0];
        let new_head = match self.direction {
            Direction::Right => (head.0 + 1, head.1),
            Direction::Left => (head.0 - 1, head.1),
            Direction::Up => (head.0, head.1 - 1),
            Direction::Down => (head.0, head.1 + 1),
        };
        self.body.set(0, new_head);
    }

    /// One tick of movement. If growth is pending, a new tail segment is
    /// first appended at the old tail's position and one growth unit is
    /// consumed; the rest of the body then shifts along the chain, the head
    /// one cell in the current heading.
    pub fn advance(&mut self)
        requires
            old(self).wf(),
            can_step(old(self).body@[0], old(self).direction),
        ensures
            final(self).direction == old(self).direction,
            final(self).body@ == advance_body(
                old(self).body@,
                old(self).direction,
                old(self).growth,
            ),
            final(self).growth == if old(self).growth > 0 {
                (old(self).growth - 1) as u32
            } else {
                old(self).growth
            },
            final(self).wf(),
    {
        let ghost b0 = self.body@;
        let ghost d0 = self.direction;
        let ghost g0 = self.growth;

        // Add a tail segment first so that it does not itself move this tick.
        if self.growth > 0 {
            let tail = self.body[self.body.len() - 1];
            self.body.push(tail);
        }

        let ghost b1 = self.body@;
        let body_len = self.body.len();
        let mut index = body_len;

        // Walk tail-to-head so every segment reads its predecessor's
        // pre-tick position before that position is overwritten.
        while index > 0
            invariant
                self.direction == d0,
                b0.len() >= 1,
                can_step(b0[0], d0),
                b1 == if g0 > 0 { b0.push(b0.last()) } else { b0 },
                body_len == self.body@.len(),
                body_len == if g0 > 0 { b0.len() + 1 } else { b0.len() },
                index <= body_len,
                self.growth == if g0 > 0 && index < body_len { (g0 - 1) as u32 } else { g0 },
                forall|j: int| 0 <= j < index ==> self.body@[j] == b1[j],
                forall|j: int|
                    index <= j < body_len ==> self.body@[j] == advance_body(b0, d0, g0)[j],
            decreases index,
        {
            let i = index - 1;
            if i == body_len - 1 && self.growth > 0 {
                // The freshly appended segment stays put for this tick.
                self.growth = self.growth - 1;
                proof {
                    assert(self.body@[i as int] == b1[i as int]);
                    assert(advance_body(b0, d0, g0)[i as int] == b0.last());
                }
            } else if i == 0 {
                proof {
                    assert(self.body@[0] == b1[0]);
                    assert(b1[0] == b0[0]);
                }
                self.move_head();
                proof {
                    assert(self.body@[0] == step(b0[0], d0));
                    assert(advance_body(b0, d0, g0)[0] == shifted(b0, d0)[0]);
                }
            } else {
                let prev = self.body[i - 1];
                proof {
                    assert(prev == b1[i - 1]);
                    assert(b1[i - 1] == b0[i - 1]);
                    assert(advance_body(b0, d0, g0)[i as int] == shifted(b0, d0)[i as int]);
                    assert(shifted(b0, d0)[i as int] == b0[i - 1]);
                }
                self.body.set(i, prev);
            }
            index = i;
        }

        proof {
            assert(self.body@ =~= advance_body(b0, d0, g0));
        }
    }

    /// Whether `pos` coincides with any body segment; used for fruit
    /// placement, which must avoid the whole snake.
    pub fn inside(&self, pos: (i32, i32)) -> (found: bool)
        ensures
            found == self.body@.contains(pos),
    {
        let mut i: usize = 0;
        while i < self.body.len()
            invariant
                i <= self.body@.len(),
                forall|j: int| 0 <= j < i ==> self.body@[j] != pos,
            decreases self.body@.len() - i,
        {
            let piece = self.body[i];
            if piece.0 == pos.0 && piece.1 == pos.1 {
                proof {
                    assert(self.body@[i as int] == pos);
                }
                return true;
            }
            i += 1;
        }
        false
    }

    /// The head sits on a wall of the grid `(0, width - 1)` x `(0, height - 1)`
    /// or beyond it.
    pub open spec fn head_hits_wall(self, bounds: (i32, i32)) -> bool {
        self.body@[0].0 <= 0 || self.body@[0].1 <= 0 || self.body@[0].0 >= bounds.0 - 1
            || self.body@[0].1 >= bounds.1 - 1
    }

    /// The head coincides with a later body segment. Only the head kills:
    /// two non-head segments sharing a cell are not a collision.
    pub open spec fn self_collision(self) -> bool {
        exists|k: int| 1 <= k < self.body@.len() && #[trigger] self.body@[k] == self.body@[0]
    }

    pub open spec fn lost_spec(self, bounds: (i32, i32)) -> bool {
        self.head_hits_wall(bounds) || self.self_collision()
    }

    /// Whether the round is over, for a grid of `bounds = (width, height)`
    /// whose edge cells are walls. Meant to be asked after `advance`, since
    /// the loss condition is about the new head position.
    pub fn check_if_lost(&self, bounds: (i32, i32)) -> (lost: bool)
        requires
            self.wf(),
        ensures
            lost == self.lost_spec(bounds),
    {
        let head = self.body[0];
        if (head.0 as i64) <= 0 || (head.1 as i64) <= 0
            || (head.0 as i64) >= (bounds.0 as i64) - 1 || (head.1 as i64) >= (bounds.1 as i64) - 1
        {
            return true;
        }
        let mut k: usize = 1;
        while k < self.body.len()
            invariant
                self.wf(),
                head == self.body@[0],
                1 <= k <= self.body@.len(),
                forall|j: int| 1 <= j < k ==> #[trigger] self.body@[j] != self.body@[0],
            decreases self.body@.len() - k,
        {
            let piece = self.body[k];
            if piece.0 == head.0 && piece.1 == head.1 {
                proof {
                    assert(self.body@[k as int] == self.body@[0]);
                }
                return true;
            }
            k += 1;
        }
        false
    }
}

/// A keypress as the simulation understands it; the window library's own
/// event type is translated to this at the crate boundary.
#[derive(PartialEq, Eq, Structural, Clone, Copy, Debug)]
pub enum KeyInput {
    Character(char),
    KeyUp,
    KeyDown,
    KeyRight,
    KeyLeft,
    Other,
}

/// The heading a letter key asks for, on either letter case: WASD and the
/// vi-style HJKL both steer.
pub open spec fn char_direction(c: char) -> Option<Direction> {
    if c == 'w' || c == 'W' || c == 'k' || c == 'K' {
        Some(Direction::Up)
    } else if c == 's' || c == 'S' || c == 'j' || c == 'J' {
        Some(Direction::Down)
    } else if c == 'd' || c == 'D' || c == 'l' || c == 'L' {
        Some(Direction::Right)
    } else if c == 'a' || c == 'A' || c == 'h' || c == 'H' {
        Some(Direction::Left)
    } else {
        None
    }
}

pub open spec fn is_quit_char(c: char) -> bool {
    c == 'q' || c == 'Q'
}

/// The game-loop state after the letter `c` is pressed during play.
pub open spec fn char_next_state(s: State, c: char) -> State {
    if is_quit_char(c) {
        State::Reset
    } else {
        s
    }
}

/// The heading after the letter `c` is pressed during play.
pub open spec fn char_next_direction(d: Direction, c: char) -> Direction {
    match char_direction(c) {
        Some(nd) => turn_spec(d, nd),
        None => d,
    }
}

/// The heading a key event asks for.
pub open spec fn key_direction(k: KeyInput) -> Option<Direction> {
    match k {
        KeyInput::Character(c) => char_direction(c),
        KeyInput::KeyUp => Some(Direction::Up),
        KeyInput::KeyDown => Some(Direction::Down),
        KeyInput::KeyRight => Some(Direction::Right),
        KeyInput::KeyLeft => Some(Direction::Left),
        KeyInput::Other => None,
    }
}

/// The game-loop state after the key event `k` (or no event) during play.
pub open spec fn key_next_state(s: State, k: Option<KeyInput>) -> State {
    match k {
        Some(KeyInput::Character(c)) => char_next_state(s, c),
        _ => s,
    }
}

/// The heading after the key event `k` (or no event) during play.
pub open spec fn key_next_direction(d: Direction, k: Option<KeyInput>) -> Direction {
    match k {
        Some(kk) => match key_direction(kk) {
            Some(nd) => turn_spec(d, nd),
            None => d,
        },
        None => d,
    }
}

/// Applies a letter key pressed during play: `q` asks the loop to reset,
/// the steering letters turn the snake, anything else is ignored.
pub fn handle_char_input(input: char, snake: &mut Snake, state: &mut State)
    ensures
        final(snake).body == old(snake).body,
        final(snake).growth == old(snake).growth,
        final(snake).direction == char_next_direction(old(snake).direction, input),
        *final(state) == char_next_state(*old(state), input),
{
    match input {
        'q' | 'Q' => {
            *state = State::Reset;
        },
        'w' | 'W' | 'k' | 'K' => snake.turn(Direction::Up),
        's' | 'S' | 'j' | 'J' => snake.turn(Direction::Down),
        'd' | 'D' | 'l' | 'L' => snake.turn(Direction::Right),
        'a' | 'A' | 'h' | 'H' => snake.turn(Direction::Left),
        _ => {},
    }
}

/// Applies one polled key event to the running game: arrow keys and the
/// steering letters turn the snake, `q` asks the loop to reset, everything
/// else (including no event at all) is ignored.
pub fn handle_input(input: Option<KeyInput>, snake: &mut Snake, state: &mut State)
    ensures
        final(snake).body == old(snake).body,
        final(snake).growth == old(snake).growth,
        final(snake).direction == key_next_direction(old(snake).direction, input),
        *final(state) == key_next_state(*old(state), input),
{
    match input {
        Some(KeyInput::Character(c)) => handle_char_input(c, snake, state),
        Some(KeyInput::KeyUp) => snake.turn(Direction::Up),
        Some(KeyInput::KeyDown) => snake.turn(Direction::Down),
        Some(KeyInput::KeyRight) => snake.turn(Direction::Right),
        Some(KeyInput::KeyLeft) => snake.turn(Direction::Left),
        _ => {},
    }
}

/// How many random draws `place_new` makes before it falls back to scanning
/// the grid for a free cell.
pub const PLACE_RETRIES: u32 = 64;

/// Relies on `rand::thread_rng` for the process-wide generator and
/// `rand::Rng::gen_range(low..high)` for a draw in `[low, high)`; the draw
/// panics only on an empty range, which the precondition rules out. Nothing
/// is assumed about which value of the range comes back.
#[verifier::external_body]
fn random_in_range(low: i32, high: i32) -> (r: i32)
    requires
        low < high,
    ensures
        low <= r < high,
{
    rand::thread_rng().gen_range(low..high)
}

pub struct FruitManager {
    /// Active fruit positions; kept as a sequence for deterministic
    /// rendering order, with no two entries equal.
    pub fruits: Vec<(i32, i32)>,
}

impl FruitManager {
    /// No two stored fruits coincide.
    pub open spec fn wf(&self) -> bool {
        self.fruits@.no_duplicates()
    }

    /// A cell fruit may occupy for a grid of `bounds = (width, height)`:
    /// the draw keeps clear of the border rows and columns.
    pub open spec fn valid_fruit_pos(p: (i32, i32), bounds: (i32, i32)) -> bool {
        1 <= p.0 < bounds.0 - 2 && 1 <= p.1 < bounds.1 - 2
    }

    /// A cell where a new fruit may actually land: in range, not already
    /// holding a fruit, and not covered by any segment of the snake.
    pub open spec fn free_for_fruit(
        self,
        p: (i32, i32),
        bounds: (i32, i32),
        snake: &Snake,
    ) -> bool {
        Self::valid_fruit_pos(p, bounds) && !self.fruits@.contains(p) && !snake.body@.contains(p)
    }

    pub fn new() -> (fm: FruitManager)
        ensures
            fm.fruits@ =~= Seq::<(i32, i32)>::empty(),
            fm.wf(),
    {
        FruitManager { fruits: Vec::new() }
    }

    /// Whether `new_fruit` coincides with no stored fruit.
    pub fn fruit_unique(&self, new_fruit: (i32, i32)) -> (unique: bool)
        ensures
            unique == !self.fruits@.contains(new_fruit),
    {
        let mut i: usize = 0;
        while i < self.fruits.len()
            invariant
                i <= self.fruits@.len(),
                forall|j: int| 0 <= j < i ==> self.fruits@[j] != new_fruit,
            decreases self.fruits@.len() - i,
        {
            let fruit = self.fruits[i];
            if fruit.0 == new_fruit.0 && fruit.1 == new_fruit.1 {
                proof {
                    assert(self.fruits@[i as int] == new_fruit);
                }
                return false;
            }
            i += 1;
        }
        true
    }

    /// Stores `pos` as a new fruit exactly when the cell is free for one;
    /// otherwise nothing changes. This is the deterministic half of
    /// placement: `place_new` feeds it candidates.
    pub fn place_at(&mut self, pos: (i32, i32), bounds: (i32, i32), snake: &Snake) -> (placed:
        bool)
        ensures
            placed == old(self).free_for_fruit(pos, bounds, snake),
            placed ==> final(self).fruits@ == old(self).fruits@.push(pos),
            !placed ==> final(self).fruits@ == old(self).fruits@,
            old(self).wf() ==> final(self).wf(),
    {
        let in_range = (pos.0 as i64) >= 1 && (pos.0 as i64) < (bounds.0 as i64) - 2
            && (pos.1 as i64) >= 1 && (pos.1 as i64) < (bounds.1 as i64) - 2;
        if in_range && self.fruit_unique(pos) && !snake.inside(pos) {
            proof {
                let of = self.fruits@;
                assert forall|i: int, j: int|
                    0 <= i < of.push(pos).len() && 0 <= j < of.push(pos).len() && i != j
                        && old(self).wf() implies of.push(pos)[i] != of.push(pos)[j] by {
                    if i < of.len() && j < of.len() {
                    } else if j == of.len() {
                        assert(of.push(pos)[i] == of[i]);
                        assert(!of.contains(pos));
                    } else {
                        assert(of.push(pos)[j] == of[j]);
                        assert(!of.contains(pos));
                    }
                }
            }
            self.fruits.push(pos);
            true
        } else {
            false
        }
    }

    /// Places one new fruit on a free cell if any free cell is left, first by
    /// bounded random draws, then by scanning the grid; reports whether a
    /// fruit was placed. Which free cell receives the fruit is up to the
    /// random source.
    pub fn place_new(&mut self, bounds: (i32, i32), snake: &Snake) -> (placed: bool)
        requires
            bounds.0 >= 4,
            bounds.1 >= 4,
        ensures
            placed == exists|p: (i32, i32)| old(self).free_for_fruit(p, bounds, snake),
            placed ==> final(self).fruits@.len() == old(self).fruits@.len() + 1
                && final(self).fruits@.drop_last() =~= old(self).fruits@
                && old(self).free_for_fruit(final(self).fruits@.last(), bounds, snake),
            !placed ==> final(self).fruits@ == old(self).fruits@,
            old(self).wf() ==> final(self).wf(),
    {
        let mut tries: u32 = 0;
        while tries < PLACE_RETRIES
            invariant
                bounds.0 >= 4,
                bounds.1 >= 4,
                self.fruits@ == old(self).fruits@,
            decreases PLACE_RETRIES - tries,
        {
            let x = random_in_range(1, bounds.0 - 2);
            let y = random_in_range(1, bounds.1 - 2);
            if self.place_at((x, y), bounds, snake) {
                proof {
                    assert(old(self).free_for_fruit((x, y), bounds, snake));
                }
                return true;
            }
            tries += 1;
        }

        // The random draws found nothing: sweep the whole candidate range so
        // that failure really means the grid has no free cell left.
        let mut x: i32 = 1;
        while x < bounds.0 - 2
            invariant
                bounds.0 >= 4,
                bounds.1 >= 4,
                1 <= x <= bounds.0 - 2,
                self.fruits@ == old(self).fruits@,
                forall|p: (i32, i32)|
                    #[trigger] old(self).free_for_fruit(p, bounds, snake) ==> p.0 >= x,
            decreases bounds.0 - 2 - x,
        {
            let mut y: i32 = 1;
            while y < bounds.1 - 2
                invariant
                    bounds.0 >= 4,
                    bounds.1 >= 4,
                    1 <= x < bounds.0 - 2,
                    1 <= y <= bounds.1 - 2,
                    self.fruits@ == old(self).fruits@,
                    forall|p: (i32, i32)|
                        #[trigger] old(self).free_for_fruit(p, bounds, snake) ==> p.0 > x || (p.0
                            == x && p.1 >= y),
                decreases bounds.1 - 2 - y,
            {
                if self.place_at((x, y), bounds, snake) {
                    proof {
                        assert(old(self).free_for_fruit((x, y), bounds, snake));
                    }
                    return true;
                }
                y += 1;
            }
            x += 1;
        }
        proof {
            assert forall|p: (i32, i32)| !old(self).free_for_fruit(p, bounds, snake) by {
                if old(self).free_for_fruit(p, bounds, snake) {
                    assert(p.0 >= bounds.0 - 2);
                }
            }
        }
        false
    }

    /// Removes the fruit under the snake's head, if one is there, and
    /// reports whether one was removed. At most one fruit can match, since
    /// no two stored fruits coincide; crediting the snake's growth is the
    /// caller's business.
    pub fn fruit_eaten(&mut self, snake: &Snake) -> (eaten: bool)
        requires
            snake.wf(),
            old(self).wf(),
        ensures
            final(self).wf(),
            eaten == old(self).fruits@.contains(snake.body@[0]),
            eaten ==> exists|i: int|
                0 <= i < old(self).fruits@.len() && old(self).fruits@[i] == snake.body@[0]
                    && final(self).fruits@ == #[trigger] old(self).fruits@.remove(i),
            eaten ==> !final(self).fruits@.contains(snake.body@[0]),
            !eaten ==> final(self).fruits@ == old(self).fruits@,
    {
        let snake_head = snake.body[0];
        let mut i: usize = 0;
        while i < self.fruits.len()
            invariant
                self.fruits@ == old(self).fruits@,
                self.fruits@.no_duplicates(),
                snake.wf(),
                i <= self.fruits@.len(),
                snake_head == snake.body@[0],
                forall|j: int| 0 <= j < i ==> self.fruits@[j] != snake.body@[0],
            decreases self.fruits@.len() - i,
        {
            let fruit = self.fruits[i];
            if fruit.0 == snake_head.0 && fruit.1 == snake_head.1 {
                proof {
                    let of = self.fruits@;
                    let hd = snake.body@[0];
                    assert(of[i as int] == hd);
                    assert forall|a: int, b: int|
                        0 <= a < of.remove(i as int).len() && 0 <= b < of.remove(i as int).len()
                            && a != b implies of.remove(i as int)[a] != of.remove(
                        i as int,
                    )[b] by {
                        of.remove_ensures(i as int);
                    }
                    assert forall|a: int| 0 <= a < of.remove(i as int).len() implies of.remove(
                        i as int,
                    )[a] != hd by {
                        of.remove_ensures(i as int);
                    }
                }
                self.fruits.remove(i);
                return true;
            }
            i += 1;
        }
        false
    }
}

/// The growth budget left after one advance.
pub open spec fn next_growth(g: u32) -> u32 {
    if g > 0 {
        (g - 1) as u32
    } else {
        g
    }
}

/// The body and growth budget after a run of advances, one per entry of
/// `ds`, each taken with the heading that entry gives.
pub open spec fn advance_n(b: Seq<(i32, i32)>, ds: Seq<Direction>, g: u32) -> (Seq<(i32, i32)>, u32)
    decreases ds.len(),
{
    if ds.len() == 0 {
        (b, g)
    } else {
        advance_n(advance_body(b, ds[0], g), ds.skip(1), next_growth(g))
    }
}

/// Growth law: with a growth budget of `g`, a run of advances adds one
/// segment per advance until exactly `g` segments have been added, each
/// advance consuming one growth unit; once the budget is exhausted, further
/// advances leave the body length unchanged.
pub proof fn lemma_growth_law(b: Seq<(i32, i32)>, ds: Seq<Direction>, g: u32)
    requires
        b.len() >= 1,
    ensures
        ds.len() <= g ==> advance_n(b, ds, g).0.len() == b.len() + ds.len() && advance_n(
            b,
            ds,
            g,
        ).1 as int == g - ds.len(),
        ds.len() >= g ==> advance_n(b, ds, g).0.len() == b.len() + g && advance_n(b, ds, g).1
            == 0,
    decreases ds.len(),
{
    if ds.len() > 0 {
        lemma_growth_law(advance_body(b, ds[0], g), ds.skip(1), next_growth(g));
    }
}

/// Reversal law: a turn request for the exact reversal of the current
/// heading never changes the heading; any other request, the current heading
/// itself included, always becomes the heading.
pub proof fn lemma_turn_reversal(cur: Direction, requested: Direction)
    ensures
        turn_spec(cur, opposite(cur)) == cur,
        requested != opposite(cur) ==> turn_spec(cur, requested) == requested,
{
}

/// Chain-follow law: with no growth pending, one advance gives every
/// non-head segment the position its predecessor held before the tick.
pub proof fn lemma_chain_follow(b: Seq<(i32, i32)>, d: Direction)
    requires
        b.len() >= 1,
    ensures
        advance_body(b, d, 0).len() == b.len(),
        forall|i: int| 1 <= i < b.len() ==> #[trigger] advance_body(b, d, 0)[i] == b[i - 1],
{
}

/// Loss boundary: a head on or beyond a wall of the `(width, height)` grid
/// is lost; a head strictly inside the walls, with no later segment under
/// it, is not.
pub proof fn lemma_loss_boundary(s: Snake, bounds: (i32, i32))
    requires
        s.wf(),
    ensures
        s.body@[0].0 <= 0 || s.body@[0].1 <= 0 || s.body@[0].0 >= bounds.0 - 1 || s.body@[0].1
            >= bounds.1 - 1 ==> s.lost_spec(bounds),
        0 < s.body@[0].0 < bounds.0 - 1 && 0 < s.body@[0].1 < bounds.1 - 1
            && !s.self_collision() ==> !s.lost_spec(bounds),
{
}

/// Self-collision law: a body whose head coincides with any later segment
/// is lost, wherever the head stands relative to the walls.
pub proof fn lemma_self_collision_lost(s: Snake, bounds: (i32, i32), k: int)
    requires
        s.wf(),
        1 <= k < s.body@.len(),
        s.body@[k] == s.body@[0],
    ensures
        s.lost_spec(bounds),
{
    assert(s.self_collision());
}

} // verus!
