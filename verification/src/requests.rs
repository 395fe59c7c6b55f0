use vstd::prelude::*;
use vstd::string::*;

use crate::service_definition::{spec_definition, DefinitionView};
use crate::service_type::ServiceType;
use crate::util::{owned, sum_of, sum_usizes};

verus! {

broadcast use vstd::string::group_string_axioms;

/// The functions that each kind of service answers when a program calls it.
pub open spec fn spec_handles(service: ServiceType, function: Seq<char>) -> bool {
    match service {
        ServiceType::World => {
            ||| function == "reset"@
            ||| function == "showText"@
            ||| function == "removeEntity"@
            ||| function == "removeAllEntities"@
            ||| function == "clearText"@
            ||| function == "addEntity"@
            ||| function == "instantiateEntities"@
            ||| function == "listEntities"@
            ||| function == "addBlock"@
            ||| function == "addRobot"@
            ||| function == "addSensor"@
            ||| function == "listTextures"@
            ||| function == "listMeshes"@
            ||| function == "listUsers"@
        },
        ServiceType::Entity => {
            ||| function == "reset"@
            ||| function == "setPosition"@
            ||| function == "setRotation"@
            ||| function == "getPosition"@
            ||| function == "getRotation"@
        },
        ServiceType::PositionSensor => {
            ||| function == "getX"@
            ||| function == "getY"@
            ||| function == "getZ"@
            ||| function == "getPosition"@
            ||| function == "getHeading"@
        },
        ServiceType::ProximitySensor => function == "getIntensity"@ || function == "dig"@,
        ServiceType::Trigger => function == "entitiesInside"@,
        ServiceType::WaypointList => function == "getNextWaypoint"@,
        ServiceType::LIDAR => function == "getRange"@,
        ServiceType::Unknown => false,
    }
}

fn is_one_of(function: &String, names: &[&str]) -> (r: bool)
    ensures
        r == exists|i: int| 0 <= i < names.len() && function@ == (#[trigger] names@[i])@,
{
    let mut i: usize = 0;
    while i < names.len()
        invariant
            i <= names.len(),
            forall|j: int| 0 <= j < i ==> function@ != (#[trigger] names@[j])@,
        decreases names.len() - i,
    {
        if *function == owned(names[i]) {
            return true;
        }
        i += 1;
    }
    false
}

/// Whether a service of this kind answers a call of `function`.
pub fn handles(service: ServiceType, function: &String) -> (r: bool)
    ensures
        r == spec_handles(service, function@),
{
    match service {
        ServiceType::World => {
            let names = [
                "reset",
                "showText",
                "removeEntity",
                "removeAllEntities",
                "clearText",
                "addEntity",
                "instantiateEntities",
                "listEntities",
                "addBlock",
                "addRobot",
                "addSensor",
                "listTextures",
                "listMeshes",
                "listUsers",
            ];
            let r = is_one_of(function, &names);
            proof {
                if spec_handles(service, function@) {
                    if function@ == "reset"@ { assert(function@ == names@[0]@); }
                    if function@ == "showText"@ { assert(function@ == names@[1]@); }
                    if function@ == "removeEntity"@ { assert(function@ == names@[2]@); }
                    if function@ == "removeAllEntities"@ { assert(function@ == names@[3]@); }
                    if function@ == "clearText"@ { assert(function@ == names@[4]@); }
                    if function@ == "addEntity"@ { assert(function@ == names@[5]@); }
                    if function@ == "instantiateEntities"@ { assert(function@ == names@[6]@); }
                    if function@ == "listEntities"@ { assert(function@ == names@[7]@); }
                    if function@ == "addBlock"@ { assert(function@ == names@[8]@); }
                    if function@ == "addRobot"@ { assert(function@ == names@[9]@); }
                    if function@ == "addSensor"@ { assert(function@ == names@[10]@); }
                    if function@ == "listTextures"@ { assert(function@ == names@[11]@); }
                    if function@ == "listMeshes"@ { assert(function@ == names@[12]@); }
                    if function@ == "listUsers"@ { assert(function@ == names@[13]@); }
                }
            }
            r
        },
        ServiceType::Entity => {
            let names = ["reset", "setPosition", "setRotation", "getPosition", "getRotation"];
            let r = is_one_of(function, &names);
            proof {
                if spec_handles(service, function@) {
                    if function@ == "reset"@ { assert(function@ == names@[0]@); }
                    if function@ == "setPosition"@ { assert(function@ == names@[1]@); }
                    if function@ == "setRotation"@ { assert(function@ == names@[2]@); }
                    if function@ == "getPosition"@ { assert(function@ == names@[3]@); }
                    if function@ == "getRotation"@ { assert(function@ == names@[4]@); }
                }
            }
            r
        },
        ServiceType::PositionSensor => {
            let names = ["getX", "getY", "getZ", "getPosition", "getHeading"];
            let r = is_one_of(function, &names);
            proof {
                if spec_handles(service, function@) {
                    if function@ == "getX"@ { assert(function@ == names@[0]@); }
                    if function@ == "getY"@ { assert(function@ == names@[1]@); }
                    if function@ == "getZ"@ { assert(function@ == names@[2]@); }
                    if function@ == "getPosition"@ { assert(function@ == names@[3]@); }
                    if function@ == "getHeading"@ { assert(function@ == names@[4]@); }
                }
            }
            r
        },
        ServiceType::ProximitySensor => *function == owned("getIntensity") || *function == owned("dig"),
        ServiceType::Trigger => *function == owned("entitiesInside"),
        ServiceType::WaypointList => *function == owned("getNextWaypoint"),
        ServiceType::LIDAR => *function == owned("getRange"),
        ServiceType::Unknown => false,
    }
}

/// Whether a definition lists a method of this name.
pub open spec fn lists_method(d: DefinitionView, name: Seq<char>) -> bool {
    exists|i: int| 0 <= i < d.methods.len() && (#[trigger] d.methods[i]).0 == name
}

/// Each kind of service answers exactly the methods that its definition
/// announces.
pub proof fn lemma_services_answer_what_they_announce(service: ServiceType, id: Seq<char>, function: Seq<char>)
    requires
        spec_definition(service, id) is Some,
    ensures
        spec_handles(service, function) <==> lists_method(spec_definition(service, id)->0, function),
{
    let d = spec_definition(service, id)->0;
    if lists_method(d, function) {
        let i = choose|i: int| 0 <= i < d.methods.len() && (#[trigger] d.methods[i]).0 == function;
        assert(d.methods[i].0 == function);
    }
    if spec_handles(service, function) {
        match service {
            ServiceType::World => {
                if function == "addBlock"@ { assert(d.methods[0].0 == function); }
                if function == "addEntity"@ { assert(d.methods[1].0 == function); }
                if function == "addRobot"@ { assert(d.methods[2].0 == function); }
                if function == "addSensor"@ { assert(d.methods[3].0 == function); }
                if function == "clearText"@ { assert(d.methods[4].0 == function); }
                if function == "instantiateEntities"@ { assert(d.methods[5].0 == function); }
                if function == "listEntities"@ { assert(d.methods[6].0 == function); }
                if function == "listMeshes"@ { assert(d.methods[7].0 == function); }
                if function == "listTextures"@ { assert(d.methods[8].0 == function); }
                if function == "listUsers"@ { assert(d.methods[9].0 == function); }
                if function == "removeAllEntities"@ { assert(d.methods[10].0 == function); }
                if function == "removeEntity"@ { assert(d.methods[11].0 == function); }
                if function == "reset"@ { assert(d.methods[12].0 == function); }
                if function == "showText"@ { assert(d.methods[13].0 == function); }
            },
            ServiceType::Entity => {
                if function == "getPosition"@ { assert(d.methods[0].0 == function); }
                if function == "getRotation"@ { assert(d.methods[1].0 == function); }
                if function == "reset"@ { assert(d.methods[2].0 == function); }
                if function == "setPosition"@ { assert(d.methods[3].0 == function); }
                if function == "setRotation"@ { assert(d.methods[4].0 == function); }
            },
            ServiceType::PositionSensor => {
                if function == "getHeading"@ { assert(d.methods[0].0 == function); }
                if function == "getPosition"@ { assert(d.methods[1].0 == function); }
                if function == "getX"@ { assert(d.methods[2].0 == function); }
                if function == "getY"@ { assert(d.methods[3].0 == function); }
                if function == "getZ"@ { assert(d.methods[4].0 == function); }
            },
            ServiceType::ProximitySensor => {
                if function == "dig"@ { assert(d.methods[0].0 == function); }
                if function == "getIntensity"@ { assert(d.methods[1].0 == function); }
            },
            ServiceType::Trigger => {
                assert(d.methods[0].0 == function);
            },
            ServiceType::WaypointList => {
                assert(d.methods[0].0 == function);
            },
            ServiceType::LIDAR => {
                assert(d.methods[0].0 == function);
            },
            ServiceType::Unknown => {},
        }
    }
}

/// What a call to the world service asks for.
#[derive(Debug, Clone, Copy, PartialEq, Eq, Structural)]
pub enum WorldRequest {
    Reset,
    ShowText,
    RemoveEntity,
    RemoveAllEntities,
    ClearText,
    AddEntity,
    InstantiateEntities,
    ListEntities,
    AddBlock,
    AddRobot,
    AddSensor,
    ListTextures,
    ListMeshes,
    ListUsers,
    /// A known method called with too few arguments; the call answers `false`
    TooFewArguments,
    /// A method that the world does not have; the call answers nothing
    Unrecognized,
}

/// The request that a call of `function` with `param_count` arguments makes:
/// adding a block needs 7 arguments, a robot 3 and a sensor 2.
pub open spec fn spec_world_request(function: Seq<char>, param_count: nat) -> WorldRequest {
    if function == "reset"@ {
        WorldRequest::Reset
    } else if function == "showText"@ {
        WorldRequest::ShowText
    } else if function == "removeEntity"@ {
        WorldRequest::RemoveEntity
    } else if function == "removeAllEntities"@ {
        WorldRequest::RemoveAllEntities
    } else if function == "clearText"@ {
        WorldRequest::ClearText
    } else if function == "addEntity"@ {
        WorldRequest::AddEntity
    } else if function == "instantiateEntities"@ {
        WorldRequest::InstantiateEntities
    } else if function == "listEntities"@ {
        WorldRequest::ListEntities
    } else if function == "addBlock"@ {
        if param_count < 7 {
            WorldRequest::TooFewArguments
        } else {
            WorldRequest::AddBlock
        }
    } else if function == "addRobot"@ {
        if param_count < 3 {
            WorldRequest::TooFewArguments
        } else {
            WorldRequest::AddRobot
        }
    } else if function == "addSensor"@ {
        if param_count < 2 {
            WorldRequest::TooFewArguments
        } else {
            WorldRequest::AddSensor
        }
    } else if function == "listTextures"@ {
        WorldRequest::ListTextures
    } else if function == "listMeshes"@ {
        WorldRequest::ListMeshes
    } else if function == "listUsers"@ {
        WorldRequest::ListUsers
    } else {
        WorldRequest::Unrecognized
    }
}

/// Decide what a call to the world service asks for.
pub fn world_request(function: &String, param_count: usize) -> (r: WorldRequest)
    ensures
        r == spec_world_request(function@, param_count as nat),
{
    if *function == owned("reset") {
        WorldRequest::Reset
    } else if *function == owned("showText") {
        WorldRequest::ShowText
    } else if *function == owned("removeEntity") {
        WorldRequest::RemoveEntity
    } else if *function == owned("removeAllEntities") {
        WorldRequest::RemoveAllEntities
    } else if *function == owned("clearText") {
        WorldRequest::ClearText
    } else if *function == owned("addEntity") {
        WorldRequest::AddEntity
    } else if *function == owned("instantiateEntities") {
        WorldRequest::InstantiateEntities
    } else if *function == owned("listEntities") {
        WorldRequest::ListEntities
    } else if *function == owned("addBlock") {
        if param_count < 7 {
            WorldRequest::TooFewArguments
        } else {
            WorldRequest::AddBlock
        }
    } else if *function == owned("addRobot") {
        if param_count < 3 {
            WorldRequest::TooFewArguments
        } else {
            WorldRequest::AddRobot
        }
    } else if *function == owned("addSensor") {
        if param_count < 2 {
            WorldRequest::TooFewArguments
        } else {
            WorldRequest::AddSensor
        }
    } else if *function == owned("listTextures") {
        WorldRequest::ListTextures
    } else if *function == owned("listMeshes") {
        WorldRequest::ListMeshes
    } else if *function == owned("listUsers") {
        WorldRequest::ListUsers
    } else {
        WorldRequest::Unrecognized
    }
}

/// The world recognizes exactly the methods it answers.
pub proof fn lemma_world_request_recognizes_handled(function: Seq<char>, param_count: nat)
    ensures
        spec_world_request(function, param_count) != WorldRequest::Unrecognized <==> spec_handles(
            ServiceType::World,
            function,
        ),
{
}

/// How a service's answer goes back to the program that called it.
#[derive(Debug, Clone, Copy, PartialEq, Eq, Structural)]
pub enum ResponseRoute {
    /// In a datagram
    Udp,
    /// Over HTTP, for answers too long for a datagram
    Http,
}

/// Longest answer, in characters of JSON, that goes back in a datagram.
pub open spec fn spec_max_udp_response_size() -> int {
    500
}

/// Route an answer: an error goes back in a datagram, and so does a result
/// whose values, written as JSON, take at most 500 characters together;
/// `value_sizes` holds the JSON length of each value of a result.
pub fn response_route(value_sizes: Option<&Vec<usize>>) -> (route: ResponseRoute)
    requires
        value_sizes matches Some(sizes) ==> sum_of(sizes@) <= usize::MAX,
    ensures
        route == match value_sizes {
            Some(sizes) => if sum_of(sizes@) > spec_max_udp_response_size() {
                ResponseRoute::Http
            } else {
                ResponseRoute::Udp
            },
            None => ResponseRoute::Udp,
        },
{
    match value_sizes {
        None => ResponseRoute::Udp,
        Some(sizes) => {
            let total = sum_usizes(sizes);
            if total > 500 {
                ResponseRoute::Http
            } else {
                ResponseRoute::Udp
            }
        },
    }
}

/// Whether a service announces itself again: it does once more than its
/// announce period has passed since its last announcement.
pub fn announce_due(since_last_announce_ns: u128, announce_period_ns: u128) -> (r: bool)
    ensures
        r == (since_last_announce_ns > announce_period_ns),
{
    since_last_announce_ns > announce_period_ns
}

/// The kind of sensor service that a (lower-case) sensor type name asks for.
pub open spec fn spec_sensor_service(kind: Seq<char>) -> Option<ServiceType> {
    if kind == "position"@ {
        Some(ServiceType::PositionSensor)
    } else if kind == "proximity"@ {
        Some(ServiceType::ProximitySensor)
    } else if kind == "waypoint"@ {
        Some(ServiceType::WaypointList)
    } else if kind == "lidar"@ {
        Some(ServiceType::LIDAR)
    } else if kind == "entity"@ {
        Some(ServiceType::Entity)
    } else {
        None
    }
}

/// Decide which service a request to add a sensor creates, from its
/// lower-case type name; an unknown name creates none and is answered `false`.
pub fn sensor_service(kind: &String) -> (r: Option<ServiceType>)
    ensures
        r == spec_sensor_service(kind@),
{
    if *kind == owned("position") {
        Some(ServiceType::PositionSensor)
    } else if *kind == owned("proximity") {
        Some(ServiceType::ProximitySensor)
    } else if *kind == owned("waypoint") {
        Some(ServiceType::WaypointList)
    } else if *kind == owned("lidar") {
        Some(ServiceType::LIDAR)
    } else if *kind == owned("entity") {
        Some(ServiceType::Entity)
    } else {
        None
    }
}

/// Whether a program's call to this service stays inside the room: the
/// simulation's own services do; every other service goes to NetsBlox.
pub open spec fn spec_is_room_service(service: Seq<char>) -> bool {
    ||| service == "RoboScapeWorld"@
    ||| service == "RoboScapeEntity"@
    ||| service == "PositionSensor"@
    ||| service == "LIDARSensor"@
    ||| service == "ProximitySensor"@
    ||| service == "RoboScapeTrigger"@
    ||| service == "WaypointList"@
}

/// Decide whether a program's call to `service` is handled by the room.
pub fn is_room_service(service: &String) -> (r: bool)
    ensures
        r == spec_is_room_service(service@),
{
    *service == owned("RoboScapeWorld") || *service == owned("RoboScapeEntity") || *service == owned(
        "PositionSensor",
    ) || *service == owned("LIDARSensor") || *service == owned("ProximitySensor") || *service == owned(
        "RoboScapeTrigger",
    ) || *service == owned("WaypointList")
}

/// A text without its quotes and backslashes.
pub open spec fn without_quotes(s: Seq<char>) -> Seq<char>
    decreases s.len(),
{
    if s.len() == 0 {
        Seq::empty()
    } else if s.last() == '"' || s.last() == '\\' {
        without_quotes(s.drop_last())
    } else {
        without_quotes(s.drop_last()).push(s.last())
    }
}

/// The device that a program's call addresses, from the JSON text of its
/// first argument: the text with quotes and backslashes removed.
pub fn device_id(first_arg_json: &str) -> (id: String)
    ensures
        id@ == without_quotes(first_arg_json@),
{
    let mut id = String::new();
    for c in it: first_arg_json.chars()
        invariant
            it.seq() == first_arg_json@,
            id@ == without_quotes(it.seq().take(it.index() as int)),
    {
        assert(it.seq().take(it.index() + 1).drop_last() =~= it.seq().take(it.index() as int));
        if c != '"' && c != '\\' {
            crate::util::string_push(&mut id, c);
        }
    }
    assert(first_arg_json@.take(first_arg_json@.len() as int) =~= first_arg_json@);
    id
}

/// Each world method gives the request of its own name: `reset` a reset,
/// `removeEntity` the removal of one entity, `removeAllEntities` the removal
/// of all of them, and so on; adding a block needs 7 arguments, a robot 3 and
/// a sensor 2, and fewer give `TooFewArguments`; any other name is not
/// recognized.
pub proof fn lemma_world_methods_by_name(f: Seq<char>, n: nat)
    ensures
        ({
            let r = spec_world_request(f, n);
            &&& (r == WorldRequest::Reset) <==> f == "reset"@
            &&& (r == WorldRequest::ShowText) <==> f == "showText"@
            &&& (r == WorldRequest::RemoveEntity) <==> f == "removeEntity"@
            &&& (r == WorldRequest::RemoveAllEntities) <==> f == "removeAllEntities"@
            &&& (r == WorldRequest::ClearText) <==> f == "clearText"@
            &&& (r == WorldRequest::AddEntity) <==> f == "addEntity"@
            &&& (r == WorldRequest::InstantiateEntities) <==> f == "instantiateEntities"@
            &&& (r == WorldRequest::ListEntities) <==> f == "listEntities"@
            &&& (r == WorldRequest::ListTextures) <==> f == "listTextures"@
            &&& (r == WorldRequest::ListMeshes) <==> f == "listMeshes"@
            &&& (r == WorldRequest::ListUsers) <==> f == "listUsers"@
            &&& (r == WorldRequest::AddBlock) <==> (f == "addBlock"@ && n >= 7)
            &&& (r == WorldRequest::AddRobot) <==> (f == "addRobot"@ && n >= 3)
            &&& (r == WorldRequest::AddSensor) <==> (f == "addSensor"@ && n >= 2)
            &&& (r == WorldRequest::TooFewArguments) <==> ((f == "addBlock"@ && n < 7) || (f == "addRobot"@ && n
                < 3) || (f == "addSensor"@ && n < 2))
            &&& (r == WorldRequest::Unrecognized) <==> !(f == "reset"@ || f == "showText"@ || f
                == "removeEntity"@ || f == "removeAllEntities"@ || f == "clearText"@ || f == "addEntity"@ || f
                == "instantiateEntities"@ || f == "listEntities"@ || f == "listTextures"@ || f == "listMeshes"@
                || f == "listUsers"@ || f == "addBlock"@ || f == "addRobot"@ || f == "addSensor"@)
        }),
{
    reveal_strlit("reset");
    reveal_strlit("showText");
    reveal_strlit("removeEntity");
    reveal_strlit("removeAllEntities");
    reveal_strlit("clearText");
    reveal_strlit("addEntity");
    reveal_strlit("instantiateEntities");
    reveal_strlit("listEntities");
    reveal_strlit("listTextures");
    reveal_strlit("listMeshes");
    reveal_strlit("listUsers");
    reveal_strlit("addBlock");
    reveal_strlit("addRobot");
    reveal_strlit("addSensor");
    assert("reset"@.len() == 5 && "showText"@.len() == 8 && "removeEntity"@.len() == 12
        && "removeAllEntities"@.len() == 17 && "clearText"@.len() == 9 && "addEntity"@.len() == 9
        && "instantiateEntities"@.len() == 19 && "listEntities"@.len() == 12 && "listTextures"@.len() == 12
        && "listMeshes"@.len() == 10 && "listUsers"@.len() == 9 && "addBlock"@.len() == 8
        && "addRobot"@.len() == 8 && "addSensor"@.len() == 9);
    assert("showText"@[0] == 's' && "addBlock"@[0] == 'a' && "addBlock"@[3] == 'B' && "addRobot"@[3] == 'R');
    assert("clearText"@[0] == 'c' && "listUsers"@[0] == 'l' && "addEntity"@[0] == 'a' && "addEntity"@[3] == 'E'
        && "addSensor"@[3] == 'S');
    assert("removeEntity"@[0] == 'r' && "listEntities"@[0] == 'l' && "listEntities"@[4] == 'E'
        && "listTextures"@[4] == 'T');
}

/// Exactly the kinds of service that a room creates are answered in the room:
/// a program's call goes to the room when, and only when, it names one of
/// them.
pub proof fn lemma_room_services_are_the_room_kinds(service: Seq<char>)
    ensures
        spec_is_room_service(service) <==> exists|t: ServiceType| t != ServiceType::Unknown && #[trigger] t.spec_name()
            == service,
        forall|t: ServiceType| t != ServiceType::Unknown ==> spec_is_room_service(#[trigger] t.spec_name()),
{
    reveal_strlit("Unknown");
    reveal_strlit("RoboScapeWorld");
    reveal_strlit("RoboScapeEntity");
    reveal_strlit("PositionSensor");
    reveal_strlit("LIDARSensor");
    reveal_strlit("ProximitySensor");
    reveal_strlit("RoboScapeTrigger");
    reveal_strlit("WaypointList");
    assert("Unknown"@.len() == 7 && "RoboScapeWorld"@.len() == 14 && "RoboScapeEntity"@.len() == 15
        && "PositionSensor"@.len() == 14 && "LIDARSensor"@.len() == 11 && "ProximitySensor"@.len() == 15
        && "RoboScapeTrigger"@.len() == 16 && "WaypointList"@.len() == 12);
    if spec_is_room_service(service) {
        if service == "RoboScapeWorld"@ {
            assert(ServiceType::World.spec_name() == service);
        } else if service == "RoboScapeEntity"@ {
            assert(ServiceType::Entity.spec_name() == service);
        } else if service == "PositionSensor"@ {
            assert(ServiceType::PositionSensor.spec_name() == service);
        } else if service == "LIDARSensor"@ {
            assert(ServiceType::LIDAR.spec_name() == service);
        } else if service == "ProximitySensor"@ {
            assert(ServiceType::ProximitySensor.spec_name() == service);
        } else if service == "RoboScapeTrigger"@ {
            assert(ServiceType::Trigger.spec_name() == service);
        } else {
            assert(ServiceType::WaypointList.spec_name() == service);
        }
    }
}

} // verus!
