//! The state of a game and its updates, frame by frame.

use std::collections::VecDeque;
use itertools::Itertools;
use vstd::prelude::*;
use crate::game::chain;
use crate::game::consts;
use crate::game::coords::Coords;
use crate::game::direction::Direction;
use crate::game::food::Food;
use crate::game::line::Line;
use crate::game::rect::Rect;
use crate::game::snake::Snake;

verus! {

#[derive(Clone, Copy, Debug, PartialEq, Eq, Structural)]
pub enum GameState {
    PreGame,
    Game,
}

/// What a frame did to the snake.
#[derive(Clone, Copy, Debug, PartialEq, Eq, Structural)]
pub enum Reaction {
    /// The snake ate the food and grew. The food is still where it was:
    /// the caller has to relocate it.
    Ate,
    /// The snake ran into itself or into a wall, and the game was reset.
    /// The caller has to relocate the food.
    Reset,
    /// The snake moved on.
    Moved,
}

/// Structure for holding game data, managing player input
/// and updating objects.
#[derive(Debug)]
pub struct GameData {
    pub snake: Snake,
    pub food: Food,
    /// The directions asked for and not yet looked at, the newest last.
    pub inputs: VecDeque<Direction>,
    /// Milliseconds since the last turn.
    pub input_timer: u64,
    pub score: u32,
    pub state: GameState,
}

/// The game data as plain mathematical values.
pub struct GameView {
    pub body: Seq<Line>,
    pub food: Food,
    pub inputs: Seq<Direction>,
    pub input_timer: u64,
    pub score: u32,
    pub state: GameState,
}

impl View for GameData {
    type V = GameView;

    open spec fn view(&self) -> GameView {
        GameView {
            body: self.snake@,
            food: self.food,
            inputs: self.inputs@,
            input_timer: self.input_timer,
            score: self.score,
            state: self.state,
        }
    }
}

/// The play field.
pub open spec fn field() -> Rect {
    Rect { x: 0, y: 0, w: consts::SCREEN_WIDTH, h: consts::SCREEN_HEIGHT }
}

/// Where a new snake starts: the middle of the field.
pub open spec fn start() -> Coords {
    Coords { x: (consts::SCREEN_WIDTH / 2) as i64, y: (consts::SCREEN_HEIGHT / 2) as i64 }
}

/// The position in `inputs`, counted from the newest entry, of the newest
/// entry that does not lie on the axis of `current`.
pub open spec fn newest_turn(inputs: Seq<Direction>, current: Direction) -> Option<nat>
    decreases inputs.len(),
{
    if inputs.len() == 0 {
        None
    } else if !inputs.last().colinear(current) {
        Some(0)
    } else {
        match newest_turn(inputs.drop_last(), current) {
            Some(i) => Some(i + 1),
            None => None,
        }
    }
}

impl GameView {
    /// The body and the food are valid.
    pub open spec fn wf(self) -> bool {
        chain::wf(self.body) && self.food.wf()
    }

    /// The game as it starts, with the food at `food_pos`.
    pub open spec fn initial(food_pos: Coords) -> GameView {
        GameView {
            body: seq![Line::fresh(start(), Direction::RIGHT)],
            food: Food::at(food_pos),
            inputs: Seq::empty(),
            input_timer: 0,
            score: 0,
            state: GameState::PreGame,
        }
    }

    /// The direction that a call of `update_input` after `time_delta`
    /// milliseconds turns the snake to, if any.
    pub open spec fn pending_turn(self, time_delta: u32) -> Option<Direction> {
        if self.input_timer + time_delta < consts::MILLIS_PER_INPUT_UPDATE {
            None
        } else {
            match newest_turn(self.inputs, self.body.last().dir) {
                Some(i) => Some(self.inputs[self.inputs.len() - 1 - i]),
                None => None,
            }
        }
    }

    /// The game after `update_input`. Before the timer reaches
    /// `MILLIS_PER_INPUT_UPDATE` only the timer changes. Then the newest
    /// input that is a real turn is applied, the inputs older than it are
    /// kept, and the timer starts again; where no input is a real turn, all
    /// are dropped.
    pub open spec fn after_input(self, time_delta: u32) -> GameView {
        let timer = (self.input_timer + time_delta) as u64;
        if timer < consts::MILLIS_PER_INPUT_UPDATE {
            GameView { input_timer: timer, ..self }
        } else {
            match newest_turn(self.inputs, self.body.last().dir) {
                Some(i) => {
                    let kept = self.inputs.len() - 1 - i;
                    GameView {
                        body: chain::turned(self.body, self.inputs[kept]),
                        inputs: self.inputs.take(kept),
                        input_timer: 0,
                        ..self
                    }
                },
                None => GameView { inputs: Seq::empty(), input_timer: timer, ..self },
            }
        }
    }

    /// The snake touches the food.
    pub open spec fn eats(self) -> bool {
        chain::collides(self.body, self.food.bbox)
    }

    /// The snake has run into itself or into the edge of the field.
    pub open spec fn crashes(self) -> bool {
        chain::self_collides(self.body) || chain::wall_collides(self.body, field())
    }

    /// The game started anew: a new snake in the middle of the field, no
    /// inputs, no score, and waiting to begin.
    pub open spec fn after_reset(self) -> GameView {
        GameView {
            body: seq![Line::fresh(start(), Direction::RIGHT)],
            inputs: Seq::empty(),
            score: 0,
            state: GameState::PreGame,
            ..self
        }
    }

    /// What `update_snake` does in this state: eating comes first, then a
    /// crash, and only a snake that does neither moves.
    pub open spec fn reaction(self) -> Reaction {
        if self.eats() {
            Reaction::Ate
        } else if self.crashes() {
            Reaction::Reset
        } else {
            Reaction::Moved
        }
    }

    /// The game after `update_snake`, `time_delta` milliseconds after the
    /// frame before.
    pub open spec fn after_frame(self, time_delta: u32) -> GameView {
        match self.reaction() {
            Reaction::Ate => GameView {
                body: chain::grown(self.body, consts::FOOD_SIZE as int),
                score: (self.score + 1) as u32,
                ..self
            },
            Reaction::Reset => self.after_reset(),
            Reaction::Moved => GameView {
                body: chain::moved(self.body, time_delta * consts::SPEED),
                ..self
            },
        }
    }
}

/// An entry that is a real turn and has only colinear entries after it is
/// the one that `newest_turn` finds.
pub proof fn lemma_newest_turn_found(inputs: Seq<Direction>, current: Direction, at: int)
    requires
        0 <= at < inputs.len(),
        !inputs[at].colinear(current),
        forall|k: int| at < k < inputs.len() ==> (#[trigger] inputs[k]).colinear(current),
    ensures
        newest_turn(inputs, current) == Some((inputs.len() - 1 - at) as nat),
    decreases inputs.len(),
{
    if at < inputs.len() - 1 {
        let older = inputs.drop_last();
        assert(inputs.last().colinear(current));
        assert(older[at] == inputs[at]);
        assert forall|k: int| at < k < older.len() implies (#[trigger] older[k]).colinear(
            current,
        ) by {
            assert(older[k] == inputs[k]);
        }
        lemma_newest_turn_found(older, current, at);
    }
}

/// Where every entry is colinear with `current`, `newest_turn` finds none.
pub proof fn lemma_newest_turn_none(inputs: Seq<Direction>, current: Direction)
    requires
        forall|k: int| 0 <= k < inputs.len() ==> (#[trigger] inputs[k]).colinear(current),
    ensures
        newest_turn(inputs, current) is None,
    decreases inputs.len(),
{
    if inputs.len() > 0 {
        let older = inputs.drop_last();
        assert(inputs.last().colinear(current));
        assert forall|k: int| 0 <= k < older.len() implies (#[trigger] older[k]).colinear(
            current,
        ) by {
            assert(older[k] == inputs[k]);
        }
        lemma_newest_turn_none(older, current);
    }
}

/// Calls `itertools::rev` on the queue and `Itertools::find_position` on
/// what it gives, with the test that an entry is a real turn from
/// `current`. `rev` walks the queue from the newest entry to the oldest.
/// `find_position` gives the first entry on that walk that passes the test,
/// with the number of entries walked before it, or `None` where no entry
/// passes. So an entry that is found is not colinear with `current`, every
/// newer entry is, and where none is found every entry is.
#[verifier::external_body]
fn find_newest_turn(inputs: &VecDeque<Direction>, current: Direction) -> (found: Option<(usize, Direction)>)
    ensures
        match found {
            Some((i, dir)) => {
                &&& i < inputs@.len()
                &&& dir == inputs@[inputs@.len() - 1 - i]
                &&& !dir.colinear(current)
                &&& forall|k: int|
                    inputs@.len() - 1 - i < k < inputs@.len() ==> (#[trigger] inputs@[k]).colinear(
                        current,
                    )
            },
            None => forall|k: int|
                0 <= k < inputs@.len() ==> (#[trigger] inputs@[k]).colinear(current),
        },
{
    itertools::rev(inputs).find_position(|dir| dir.is_turn(current)).map(|(i, dir)| (i, *dir))
}

impl GameData {
    /// The game data are valid.
    pub open spec fn wf(&self) -> bool {
        self@.wf()
    }

    /// Creates new `GameData` instance, with the food at `food_pos`.
    ///
    /// Snake is created on the middle of the screen.
    pub fn new(food_pos: Coords) -> (data: GameData)
        requires
            food_pos.bounded(),
        ensures
            data@ == GameView::initial(food_pos),
            data.wf(),
    {
        GameData {
            snake: Snake::new(consts::SCREEN_WIDTH / 2, consts::SCREEN_HEIGHT / 2),
            food: Food::new(food_pos),
            inputs: VecDeque::new(),
            input_timer: 0,
            score: 0,
            state: GameState::PreGame,
        }
    }

    /// The play field.
    pub fn field_bounds() -> (bounds: Rect)
        ensures
            bounds == field(),
    {
        Rect::new(0, 0, consts::SCREEN_WIDTH, consts::SCREEN_HEIGHT)
    }

    fn reset(&mut self)
        requires
            old(self).wf(),
        ensures
            final(self)@ == old(self)@.after_reset(),
            final(self).wf(),
    {
        self.snake = Snake::new(consts::SCREEN_WIDTH / 2, consts::SCREEN_HEIGHT / 2);
        self.inputs.clear();
        self.score = 0;
        self.state = GameState::PreGame;
    }

    fn inc_score(&mut self)
        requires
            old(self).score < u32::MAX,
        ensures
            final(self)@ == (GameView { score: (old(self).score + 1) as u32, ..old(self)@ }),
    {
        self.score += 1;
    }

    /// Puts the food at `pos` if its box there does not touch the snake,
    /// and says whether it did. After a frame that ate or reset, call this
    /// with one random point after another until it returns `true`.
    pub fn relocate_food(&mut self, pos: Coords) -> (placed: bool)
        requires
            old(self).wf(),
            pos.bounded(),
        ensures
            placed == !chain::collides(old(self)@.body, Food::box_at(pos)),
            placed ==> final(self)@ == (GameView { food: Food::at(pos), ..old(self)@ }),
            !placed ==> final(self)@ == old(self)@,
            placed ==> !final(self)@.eats(),
            final(self).wf(),
    {
        let food = Food::new(pos);
        if self.snake.collide(&food.bbox) {
            false
        } else {
            self.food = food;
            true
        }
    }

    /// Processes user input, capped to `consts::MILLIS_PER_INPUT_UPDATE`.
    ///
    /// The cap is there to make sure that 180 turns always makes enough
    /// space between both parts of the snake.
    pub fn update_input(&mut self, time_delta: u32)
        requires
            old(self).wf(),
            old(self).input_timer + time_delta <= u64::MAX,
            match old(self)@.pending_turn(time_delta) {
                Some(dir) => consts::EPSILON <= old(self)@.body.last().end.room(dir),
                None => true,
            },
        ensures
            final(self)@ == old(self)@.after_input(time_delta),
            final(self).wf(),
    {
        self.input_timer += time_delta as u64;
        if self.input_timer < consts::MILLIS_PER_INPUT_UPDATE {
            return ;
        }
        let current = self.snake.dir();
        match find_newest_turn(&self.inputs, current) {
            Some((idx, new_dir)) => {
                let truncated_len = self.inputs.len() - idx - 1;
                proof {
                    lemma_newest_turn_found(self.inputs@, current, truncated_len as int);
                }
                self.inputs.truncate(truncated_len);
                self.snake.turn(new_dir);
                self.input_timer = 0;
            },
            None => {
                proof {
                    lemma_newest_turn_none(self.inputs@, current);
                }
                self.inputs.clear();
            },
        }
    }

    /// Updates snake (collision, movement, growth)
    /// Upon collision with anything (self, wall, food) takes proper action,
    /// and says which.
    pub fn update_snake(&mut self, time_delta: u32) -> (reaction: Reaction)
        requires
            old(self).wf(),
            old(self)@.eats() ==> old(self).score < u32::MAX,
            old(self)@.eats() ==> consts::FOOD_SIZE <= old(self)@.body.last().room(),
        ensures
            reaction == old(self)@.reaction(),
            final(self)@ == old(self)@.after_frame(time_delta),
            final(self).wf(),
    {
        if self.snake.collide(&self.food.bbox) {
            self.snake.grow(consts::FOOD_SIZE);
            self.inc_score();
            Reaction::Ate
        } else if self.snake.self_collide() || self.snake.wall_collide(&Self::field_bounds()) {
            self.reset();
            Reaction::Reset
        } else {
            proof {
                lemma_room_inside_field(self.snake@.last());
            }
            self.snake.do_move(time_delta as i64 * consts::SPEED);
            Reaction::Moved
        }
    }
}

/// A head whose box lies inside the field has room for any move that one
/// frame can ask for.
pub proof fn lemma_room_inside_field(head: Line)
    requires
        head.wf(),
        field().encloses(&head.bbox()),
    ensures
        u32::MAX * consts::SPEED <= head.room(),
{
}

} // verus!
