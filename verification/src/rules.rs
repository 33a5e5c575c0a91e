//! The decisions taken on a contact and on every frame.
//!
//! Positions and velocities stay with the caller. It reports which edges of
//! the field a shape has reached and which keys are held, and carries out
//! the order it gets back.

use vstd::prelude::*;
use crate::kind::ObjectType;

verus! {

/// The speed at which a ball is sent back down from the top edge.
pub const BALL_SPEED: i32 = 150;

/// The speed of the paddle while a movement key is held.
pub const PADDLE_SPEED: i32 = 400;

/// What the collision engine reports of a pair of shapes.
#[derive(Copy, Clone, Debug, PartialEq, Eq, Structural)]
pub enum Event {
    /// The two began to touch.
    Collide,
    /// The two stopped touching.
    Separate,
}

/// What a contact does to the shapes involved.
#[derive(Copy, Clone, Debug, PartialEq, Eq, Structural)]
pub enum Response {
    /// Nothing changes.
    Ignore,
    /// The ball's vertical velocity changes sign, then the ball gains the
    /// paddle's velocity, as `bounced` says.
    PaddleBall { paddle: u64, ball: u64 },
    /// Each ball gains its own velocity along the line through the two
    /// centres.
    BallBall { first: u64, second: u64 },
}

impl Response {
    /// The same response with the two balls named in the other order.
    pub open spec fn mirrored(self) -> Response {
        match self {
            Response::BallBall { first, second } => Response::BallBall {
                first: second,
                second: first,
            },
            other => other,
        }
    }
}

/// The ball's velocity after it bounced off the paddle, each velocity given
/// by its horizontal and its vertical part: the vertical part changes sign,
/// then the paddle's velocity is added.
pub open spec fn bounced(ball: (int, int), paddle: (int, int)) -> (int, int) {
    (ball.0 + paddle.0, -ball.1 + paddle.1)
}

/// The response owed to an event between `id1` and `id2`: none unless the two
/// began to touch, then by the kinds of the pair, in whichever order they come.
pub open spec fn response_for(event: Event, id1: u64, id2: u64) -> Response {
    if event != Event::Collide {
        Response::Ignore
    } else {
        match (ObjectType::kind_of(id1), ObjectType::kind_of(id2)) {
            (ObjectType::Paddle, ObjectType::Ball) => Response::PaddleBall {
                paddle: id1,
                ball: id2,
            },
            (ObjectType::Ball, ObjectType::Paddle) => Response::PaddleBall {
                paddle: id2,
                ball: id1,
            },
            (ObjectType::Ball, ObjectType::Ball) => Response::BallBall { first: id1, second: id2 },
            _ => Response::Ignore,
        }
    }
}

/// Chooses the response to one event of the collision engine.
pub fn dispatch(event: Event, id1: u64, id2: u64) -> (response: Response)
    ensures
        response == response_for(event, id1, id2),
{
    match event {
        Event::Separate => Response::Ignore,
        Event::Collide => {
            let kind1 = ObjectType::from_id(id1);
            let kind2 = ObjectType::from_id(id2);
            if kind1.is_paddle() && kind2.is_ball() {
                Response::PaddleBall { paddle: id1, ball: id2 }
            } else if kind1.is_ball() && kind2.is_paddle() {
                Response::PaddleBall { paddle: id2, ball: id1 }
            } else if kind1.is_ball() && kind2.is_ball() {
                Response::BallBall { first: id1, second: id2 }
            } else {
                Response::Ignore
            }
        },
    }
}

/// The order in which an event names its pair does not matter: the other
/// order gives the same response, with the two balls exchanged.
pub proof fn lemma_response_ignores_order(event: Event, id1: u64, id2: u64)
    ensures
        response_for(event, id2, id1) == response_for(event, id1, id2).mirrored(),
{
}

/// A ball that falls onto a paddle moving sideways leaves it rising as fast
/// as it fell, and carries the paddle's sideways speed along.
pub proof fn lemma_paddle_hands_on_its_speed(vx: int, vy: int, px: int)
    ensures
        bounced((vx, -vy), (px, 0)) == (vx + px, vy),
{
}

/// A response is owed only to a pair whose kinds declare each other.
pub proof fn lemma_response_only_where_declared(event: Event, id1: u64, id2: u64)
    requires
        response_for(event, id1, id2) != Response::Ignore,
    ensures
        event == Event::Collide,
        ObjectType::kind_of(id1).meets(ObjectType::kind_of(id2)),
        ObjectType::kind_of(id2).meets(ObjectType::kind_of(id1)),
{
    crate::kind::lemma_meeting_is_mutual(ObjectType::kind_of(id1), ObjectType::kind_of(id2));
}

/// Which edges of the field a shape has reached or crossed.
#[derive(Copy, Clone, Debug, PartialEq, Eq, Structural)]
pub struct Reach {
    pub left: bool,
    pub right: bool,
    pub bottom: bool,
    pub top: bool,
}

/// Which movement keys are held.
#[derive(Copy, Clone, Debug, PartialEq, Eq, Structural)]
pub struct Keys {
    pub left: bool,
    pub right: bool,
}

/// What becomes of a horizontal velocity.
#[derive(Copy, Clone, Debug, PartialEq, Eq, Structural)]
pub enum Turn {
    /// It stays as it is.
    Keep,
    /// It keeps its size and points right.
    Rightward,
    /// It keeps its size and points left.
    Leftward,
}

impl Turn {
    /// The horizontal velocity `v` after the turn.
    pub open spec fn applied(self, v: int) -> int {
        match self {
            Turn::Keep => v,
            Turn::Rightward => if v < 0 { -v } else { v },
            Turn::Leftward => if v < 0 { v } else { -v },
        }
    }
}

/// What a ball does in one frame.
#[derive(Copy, Clone, Debug, PartialEq, Eq, Structural)]
pub struct BallOrder {
    /// What becomes of its horizontal velocity.
    pub horizontal: Turn,
    /// Whether its vertical velocity is set to `BALL_SPEED` downward.
    pub dive: bool,
    /// Whether it stays in play.
    pub alive: bool,
}

/// Where the paddle is put back to.
#[derive(Copy, Clone, Debug, PartialEq, Eq, Structural)]
pub enum Pin {
    /// It stays where it is.
    Free,
    /// Its left side is laid on the left edge.
    LeftEdge,
    /// Its right side is laid on the right edge.
    RightEdge,
}

/// What the paddle does in one frame.
#[derive(Copy, Clone, Debug, PartialEq, Eq, Structural)]
pub struct PaddleOrder {
    /// Its new horizontal velocity; the vertical one is zero.
    pub velocity: i32,
    pub pin: Pin,
}

/// The order for a ball that has reached the edges `reach`.
pub open spec fn ball_order(reach: Reach) -> BallOrder {
    BallOrder {
        horizontal: if reach.left {
            Turn::Rightward
        } else if reach.right {
            Turn::Leftward
        } else {
            Turn::Keep
        },
        dive: !reach.bottom && reach.top,
        alive: !reach.bottom,
    }
}

/// The order for the paddle under the keys `keys`, having reached `reach`.
pub open spec fn paddle_order(keys: Keys, reach: Reach) -> PaddleOrder {
    PaddleOrder {
        velocity: ((if keys.right { 400int } else { 0int }) - (if keys.left { 400int } else { 0int })) as i32,
        pin: if reach.left {
            Pin::LeftEdge
        } else if reach.right {
            Pin::RightEdge
        } else {
            Pin::Free
        },
    }
}

/// Decides what a ball does this frame: turned inward at a side edge, sent
/// down from the top edge, out of play at the bottom edge.
pub fn update_ball(reach: Reach) -> (order: BallOrder)
    ensures
        order == ball_order(reach),
{
    let horizontal = if reach.left {
        Turn::Rightward
    } else if reach.right {
        Turn::Leftward
    } else {
        Turn::Keep
    };
    if reach.bottom {
        BallOrder { horizontal, dive: false, alive: false }
    } else if reach.top {
        BallOrder { horizontal, dive: true, alive: true }
    } else {
        BallOrder { horizontal, dive: false, alive: true }
    }
}

/// Decides what the paddle does this frame: it moves by the keys held, and
/// is laid back on a side edge that it has reached.
pub fn update_player(keys: Keys, reach: Reach) -> (order: PaddleOrder)
    ensures
        order == paddle_order(keys, reach),
{
    let mut velocity: i32 = 0;
    if keys.left {
        velocity = velocity - PADDLE_SPEED;
    }
    if keys.right {
        velocity = velocity + PADDLE_SPEED;
    }
    let pin = if reach.left {
        Pin::LeftEdge
    } else if reach.right {
        Pin::RightEdge
    } else {
        Pin::Free
    };
    PaddleOrder { velocity, pin }
}

/// What one live shape is seen to have reached.
#[derive(Copy, Clone, Debug, PartialEq, Eq, Structural)]
pub struct Sighting {
    pub id: u64,
    pub reach: Reach,
}

/// What a shape does in one frame.
#[derive(Copy, Clone, Debug, PartialEq, Eq, Structural)]
pub enum Order {
    Paddle(PaddleOrder),
    Ball(BallOrder),
    /// The shape is left as it is.
    Rest,
}

/// The order for the shape of a sighting, by its kind.
pub open spec fn order_for(keys: Keys, seen: Sighting) -> Order {
    match ObjectType::kind_of(seen.id) {
        ObjectType::Paddle => Order::Paddle(paddle_order(keys, seen.reach)),
        ObjectType::Ball => Order::Ball(ball_order(seen.reach)),
        ObjectType::Brick => Order::Rest,
    }
}

/// Whether the shape of a sighting leaves play this frame.
pub open spec fn leaves_play(seen: Sighting) -> bool {
    ObjectType::kind_of(seen.id) == ObjectType::Ball && seen.reach.bottom
}

/// Decides what the shape of a sighting does this frame.
pub fn frame_order(keys: Keys, seen: Sighting) -> (order: Order)
    ensures
        order == order_for(keys, seen),
        leaves_play(seen) <==> (order matches Order::Ball(ball) && !ball.alive),
{
    match ObjectType::from_id(seen.id) {
        ObjectType::Paddle => Order::Paddle(update_player(keys, seen.reach)),
        ObjectType::Ball => Order::Ball(update_ball(seen.reach)),
        ObjectType::Brick => Order::Rest,
    }
}

/// A ball at a side edge moves inward afterwards, whatever its velocity was,
/// and a ball at the top edge is sent down unless it leaves play.
pub proof fn lemma_ball_turns_inward(reach: Reach, v: int)
    ensures
        reach.left ==> ball_order(reach).horizontal.applied(v) >= 0,
        !reach.left && reach.right ==> ball_order(reach).horizontal.applied(v) <= 0,
        !reach.left && !reach.right ==> ball_order(reach).horizontal.applied(v) == v,
        reach.top && !reach.bottom ==> ball_order(reach).dive,
        reach.bottom <==> !ball_order(reach).alive,
{
}

} // verus!
