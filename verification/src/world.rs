use vstd::prelude::*;
use vstd::string::*;

use crate::common::Shape;
use crate::scenarios::contains_char;
use crate::util::{owned, string_push};

verus! {

broadcast use vstd::string::group_string_axioms;

/// Kinds of entity that the world service creates.
#[derive(Debug, Clone, Copy, PartialEq, Eq, Structural)]
pub enum EntityKind {
    Robot,
    Block,
    Ball,
    Trigger,
}

/// The kind of entity that a (lower-case) type name requests; unknown names give a block.
pub open spec fn spec_classify_entity(t: Seq<char>) -> EntityKind {
    if t == "robot"@ {
        EntityKind::Robot
    } else if t == "ball"@ || t == "sphere"@ || t == "orb"@ || t == "spheroid"@ {
        EntityKind::Ball
    } else if t == "trigger"@ {
        EntityKind::Trigger
    } else {
        EntityKind::Block
    }
}

/// Classify a lower-case entity type name.
pub fn classify_entity(entity_type: &String) -> (k: EntityKind)
    ensures
        k == spec_classify_entity(entity_type@),
{
    if *entity_type == owned("robot") {
        EntityKind::Robot
    } else if *entity_type == owned("ball") || *entity_type == owned("sphere") || *entity_type
        == owned("orb") || *entity_type == owned("spheroid") {
        EntityKind::Ball
    } else if *entity_type == owned("trigger") {
        EntityKind::Trigger
    } else {
        EntityKind::Block
    }
}

impl EntityKind {
    /// Balls are spheres; every other entity is a box.
    pub fn shape(self) -> (s: Shape)
        ensures
            s == (if self == EntityKind::Ball { Shape::Sphere } else { Shape::Box }),
    {
        match self {
            EntityKind::Ball => Shape::Sphere,
            _ => Shape::Box,
        }
    }

    /// The word that names entities of this kind, followed by their number.
    pub open spec fn spec_prefix(self) -> Seq<char> {
        match self {
            EntityKind::Robot => "robot_"@,
            EntityKind::Block => "block"@,
            EntityKind::Ball => "ball"@,
            EntityKind::Trigger => "trigger"@,
        }
    }
}

/// Decimal digits of a number, without leading zeros (`0` for zero).
pub open spec fn decimal(n: nat) -> Seq<char>
    decreases n,
{
    if n < 10 {
        seq![(48 + n) as char]
    } else {
        decimal(n / 10).push((48 + n % 10) as char)
    }
}

/// The decimal rendering of a number.
pub fn decimal_string(n: u64) -> (s: String)
    ensures
        s@ == decimal(n as nat),
    decreases n,
{
    if n < 10 {
        let mut s = String::new();
        string_push(&mut s, (48u8 + n as u8) as char);
        s
    } else {
        let mut s = decimal_string(n / 10);
        string_push(&mut s, (48u8 + (n % 10) as u8) as char);
        s
    }
}

/// Name of the `number`th entity of a kind that is not a robot.
pub fn entity_name(kind: EntityKind, number: u64) -> (name: String)
    requires
        kind != EntityKind::Robot,
    ensures
        name@ == kind.spec_prefix() + decimal(number as nat),
{
    let mut name = match kind {
        EntityKind::Block => owned("block"),
        EntityKind::Ball => owned("ball"),
        _ => owned("trigger"),
    };
    let digits = decimal_string(number);
    name.append(digits.as_str());
    name
}

/// Mesh file of a mesh name: a name without an extension is a `.glb` file.
pub fn mesh_file_name(name: String) -> (file: String)
    ensures
        file@ == if name@.contains('.') {
            name@
        } else {
            name@ + ".glb"@
        },
{
    let mut file = name;
    if !contains_char(file.as_str(), '.') {
        file.append(".glb");
    }
    file
}

/// The entity type names: `robot` gives a robot; `ball`, `sphere`, `orb` and
/// `spheroid` give a ball; `trigger` gives a trigger; every other name gives a
/// block.
pub proof fn lemma_entity_type_names(t: Seq<char>)
    ensures
        (spec_classify_entity(t) == EntityKind::Robot) <==> t == "robot"@,
        (spec_classify_entity(t) == EntityKind::Ball) <==> (t == "ball"@ || t == "sphere"@ || t == "orb"@
            || t == "spheroid"@),
        (spec_classify_entity(t) == EntityKind::Trigger) <==> t == "trigger"@,
        (spec_classify_entity(t) == EntityKind::Block) <==> !(t == "robot"@ || t == "ball"@ || t == "sphere"@
            || t == "orb"@ || t == "spheroid"@ || t == "trigger"@),
{
    reveal_strlit("robot");
    reveal_strlit("ball");
    reveal_strlit("sphere");
    reveal_strlit("orb");
    reveal_strlit("spheroid");
    reveal_strlit("trigger");
    assert("robot"@.len() == 5 && "ball"@.len() == 4 && "sphere"@.len() == 6 && "orb"@.len() == 3
        && "spheroid"@.len() == 8 && "trigger"@.len() == 7);
}

} // verus!
