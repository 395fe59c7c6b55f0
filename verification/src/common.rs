use vstd::prelude::*;
use vstd::string::*;

use crate::util::owned;

verus! {

broadcast use vstd::string::group_string_axioms;

#[derive(Debug, Clone, Copy, PartialEq, Structural)]
pub enum Shape {
    Box,
    Sphere,
    Cylinder,
    Capsule,
}

impl Shape {
    /// The lower-case name under which a shape is shown.
    pub open spec fn spec_name(self) -> Seq<char> {
        match self {
            Shape::Box => "box"@,
            Shape::Sphere => "sphere"@,
            Shape::Cylinder => "cylinder"@,
            Shape::Capsule => "capsule"@,
        }
    }

    /// The shape's display text.
    pub fn to_string(&self) -> (s: String)
        ensures
            s@ == self.spec_name(),
    {
        match self {
            Shape::Box => owned("box"),
            Shape::Sphere => owned("sphere"),
            Shape::Cylinder => owned("cylinder"),
            Shape::Capsule => owned("capsule"),
        }
    }
}

/// Struct containing possible message types sent to the server
#[derive(Debug)]
pub enum ClientMessage {
    /// Responding to a Heartbeat request
    Heartbeat,
    /// Requesting reset
    ResetAll,
    /// Requesting robot reset
    ResetRobot(String),
    /// Claiming robot
    ClaimRobot(String),
    /// Claiming robot
    UnclaimRobot(String),
    /// Request encryption for robot
    EncryptRobot(String),
    /// Joining Room (room id, username, password)
    JoinRoom(String, String, Option<String>),
}

impl Clone for ClientMessage {
    fn clone(&self) -> (r: Self)
        ensures
            r == *self,
    {
        match self {
            ClientMessage::Heartbeat => ClientMessage::Heartbeat,
            ClientMessage::ResetAll => ClientMessage::ResetAll,
            ClientMessage::ResetRobot(s) => ClientMessage::ResetRobot(s.clone()),
            ClientMessage::ClaimRobot(s) => ClientMessage::ClaimRobot(s.clone()),
            ClientMessage::UnclaimRobot(s) => ClientMessage::UnclaimRobot(s.clone()),
            ClientMessage::EncryptRobot(s) => ClientMessage::EncryptRobot(s.clone()),
            ClientMessage::JoinRoom(id, user, password) => ClientMessage::JoinRoom(
                id.clone(),
                user.clone(),
                match password {
                    Some(p) => Some(p.clone()),
                    None => None,
                },
            ),
        }
    }
}

#[derive(Debug, Clone)]
pub struct CreateRoomRequestData {
    pub username: String,
    pub password: Option<String>,
    pub edit_mode: bool,
    pub environment: Option<String>,
}

#[derive(Debug, Clone)]
pub struct CreateRoomResponseData {
    pub server: String,
    pub room_id: String,
}

#[derive(Debug, Clone)]
pub struct ServerStatus {
    pub active_rooms: usize,
    pub hibernating_rooms: usize,
    pub max_rooms: usize,
    /// Address under which the announcing server is reached
    pub address: String,
}

#[derive(Debug, Clone)]
pub struct RoomInfo {
    pub id: String,
    pub environment: String,
    pub server: String,
    pub has_password: bool,
    pub is_hibernating: bool,
    pub creator: String,
    pub visitors: Vec<String>,
}

/// A scenario that rooms can be created in
#[derive(Debug, Clone)]
pub struct EnvironmentInfo {
    pub id: String,
    pub name: String,
    pub description: String,
}

/// A simulation server known to the API server
#[derive(Debug)]
pub struct ServerInfo {
    pub address: String,
    pub max_rooms: usize,
    pub last_update: std::time::SystemTime,
}

} // verus!
