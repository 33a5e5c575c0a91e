//! Object kinds, the identity range of each, and the groups they interact with.

use vstd::prelude::*;

verus! {

/// Group key of the paddle, and the first identity of its range.
pub const PADDLE: u32 = 0;

/// Group key of the balls, and the first identity of their range.
pub const BALL: u32 = 1;

/// Group key of the bricks, and the first identity of their range.
pub const BRICK: u32 = 1000;

/// The closed set of object kinds. A shape's kind is read off its identity:
/// each kind owns one contiguous range of identities.
#[derive(Copy, Clone, Debug, PartialEq, Eq, Structural)]
pub enum ObjectType {
    Paddle,
    Ball,
    Brick,
}

impl ObjectType {
    /// The kind whose range holds `id`.
    pub open spec fn kind_of(id: u64) -> ObjectType {
        if id >= BRICK {
            ObjectType::Brick
        } else if id >= BALL {
            ObjectType::Ball
        } else {
            ObjectType::Paddle
        }
    }

    /// The lowest identity of this kind's range.
    pub open spec fn first_id(self) -> u64 {
        match self {
            ObjectType::Paddle => 0,
            ObjectType::Ball => 1,
            ObjectType::Brick => 1000,
        }
    }

    /// The highest identity of this kind's range.
    pub open spec fn last_id(self) -> u64 {
        match self {
            ObjectType::Paddle => 0,
            ObjectType::Ball => 999,
            ObjectType::Brick => u64::MAX,
        }
    }

    /// Whether `id` lies in this kind's range.
    pub open spec fn owns(self, id: u64) -> bool {
        self.first_id() <= id <= self.last_id()
    }

    /// The group key of this kind.
    pub open spec fn group_key(self) -> u32 {
        match self {
            ObjectType::Paddle => PADDLE,
            ObjectType::Ball => BALL,
            ObjectType::Brick => BRICK,
        }
    }

    /// The groups this kind declares itself willing to meet, in declaration order.
    pub open spec fn declared_groups(self) -> Seq<u32> {
        match self {
            ObjectType::Ball => seq![PADDLE, BRICK, BALL],
            _ => seq![BALL],
        }
    }

    /// Whether this kind declares `other`'s group among those it meets.
    pub open spec fn meets(self, other: ObjectType) -> bool {
        self.declared_groups().contains(other.group_key())
    }

    /// Tells the kind of a shape from its identity.
    pub fn from_id(id: u64) -> (kind: ObjectType)
        ensures
            kind == Self::kind_of(id),
            kind.owns(id),
    {
        if id >= 1000u64 {
            ObjectType::Brick
        } else if id >= 1u64 {
            ObjectType::Ball
        } else {
            ObjectType::Paddle
        }
    }

    /// Whether this is the paddle's kind.
    pub fn is_paddle(&self) -> (yes: bool)
        ensures
            yes == (*self == ObjectType::Paddle),
    {
        if let ObjectType::Paddle = *self {
            true
        } else {
            false
        }
    }

    /// Whether this is the balls' kind.
    pub fn is_ball(&self) -> (yes: bool)
        ensures
            yes == (*self == ObjectType::Ball),
    {
        if let ObjectType::Ball = *self {
            true
        } else {
            false
        }
    }

    /// The lowest identity of this kind's range.
    pub fn lowest_id(&self) -> (id: u64)
        ensures
            id == self.first_id(),
    {
        match *self {
            ObjectType::Paddle => 0u64,
            ObjectType::Ball => 1u64,
            ObjectType::Brick => 1000u64,
        }
    }

    /// The highest identity of this kind's range.
    pub fn highest_id(&self) -> (id: u64)
        ensures
            id == self.last_id(),
    {
        match *self {
            ObjectType::Paddle => 0u64,
            ObjectType::Ball => 999u64,
            ObjectType::Brick => u64::MAX,
        }
    }

    /// The group this kind belongs to. Every kind has one.
    pub fn group(&self) -> (key: Option<u32>)
        ensures
            key == Some(self.group_key()),
    {
        match *self {
            ObjectType::Paddle => Some(PADDLE),
            ObjectType::Ball => Some(BALL),
            ObjectType::Brick => Some(BRICK),
        }
    }

    /// The groups this kind is willing to meet: a ball meets every group,
    /// every other kind meets balls only.
    pub fn interact_groups(&self) -> (groups: Vec<u32>)
        ensures
            groups@ == self.declared_groups(),
    {
        match *self {
            ObjectType::Ball => {
                let groups = vec![PADDLE, BRICK, BALL];
                assert(groups@ =~= seq![PADDLE, BRICK, BALL]);
                groups
            },
            _ => {
                let groups = vec![BALL];
                assert(groups@ =~= seq![BALL]);
                groups
            },
        }
    }

    /// Whether a pair of this kind and `other` is to be watched for contact:
    /// this kind must declare `other`'s group.
    pub fn can_interact(&self, other: &ObjectType) -> (yes: bool)
        ensures
            yes == self.meets(*other),
    {
        let wanted = match *other {
            ObjectType::Paddle => PADDLE,
            ObjectType::Ball => BALL,
            ObjectType::Brick => BRICK,
        };
        let groups = self.interact_groups();
        let mut i: usize = 0;
        while i < groups.len()
            invariant
                i <= groups.len(),
                groups@ == self.declared_groups(),
                wanted == other.group_key(),
                forall|j: int| 0 <= j < i ==> groups@[j] != wanted,
            decreases groups.len() - i,
        {
            if groups[i] == wanted {
                return true;
            }
            i += 1;
        }
        false
    }
}

/// The ranges of the kinds split the identities among them: an identity lies
/// in the range of a kind exactly when it is of that kind, so every identity
/// lies in one range and in no other.
pub proof fn lemma_ranges_partition_ids(id: u64, kind: ObjectType)
    ensures
        kind.owns(id) <==> ObjectType::kind_of(id) == kind,
        ObjectType::kind_of(id).owns(id),
{
}

/// The first identity of a range is of the range's kind, and its number is
/// the kind's group key.
pub proof fn lemma_group_key_opens_range(kind: ObjectType)
    ensures
        kind.first_id() == kind.group_key(),
        ObjectType::kind_of(kind.first_id()) == kind,
{
}

/// Although the declarations differ from kind to kind, what they permit is
/// mutual: a pair is watched exactly when one of the two is a ball.
pub proof fn lemma_meeting_is_mutual(a: ObjectType, b: ObjectType)
    ensures
        a.meets(b) == b.meets(a),
        a.meets(b) <==> (a == ObjectType::Ball || b == ObjectType::Ball),
{
    let ball = seq![PADDLE, BRICK, BALL];
    let other = seq![BALL];
    assert(ball[0] == PADDLE && ball[1] == BRICK && ball[2] == BALL);
    assert(other[0] == BALL);
}

} // verus!
