use vstd::prelude::*;
use vstd::std_specs::convert::FromSpecImpl;

use crate::util::owned;

verus! {

broadcast use vstd::string::group_string_axioms;

#[derive(Debug, Clone, Copy, PartialEq, Eq, Hash, Structural)]
pub enum ServiceType {
    World,
    Entity,
    PositionSensor,
    LIDAR,
    ProximitySensor,
    Trigger,
    WaypointList,
    Unknown,
}

impl ServiceType {
    /// The IoTScape service name of each kind of service.
    pub open spec fn spec_name(self) -> Seq<char> {
        match self {
            ServiceType::World => "RoboScapeWorld"@,
            ServiceType::Entity => "RoboScapeEntity"@,
            ServiceType::PositionSensor => "PositionSensor"@,
            ServiceType::LIDAR => "LIDARSensor"@,
            ServiceType::ProximitySensor => "ProximitySensor"@,
            ServiceType::Trigger => "RoboScapeTrigger"@,
            ServiceType::WaypointList => "WaypointList"@,
            ServiceType::Unknown => "Unknown"@,
        }
    }

    /// The kind of service that a name stands for; `Unknown` for any other name.
    pub open spec fn spec_from_name(name: Seq<char>) -> ServiceType {
        if name == "RoboScapeWorld"@ {
            ServiceType::World
        } else if name == "RoboScapeEntity"@ {
            ServiceType::Entity
        } else if name == "PositionSensor"@ {
            ServiceType::PositionSensor
        } else if name == "LIDARSensor"@ {
            ServiceType::LIDAR
        } else if name == "ProximitySensor"@ {
            ServiceType::ProximitySensor
        } else if name == "RoboScapeTrigger"@ {
            ServiceType::Trigger
        } else if name == "WaypointList"@ {
            ServiceType::WaypointList
        } else {
            ServiceType::Unknown
        }
    }

    pub fn name(self) -> (r: &'static str)
        ensures
            r@ == self.spec_name(),
    {
        match self {
            ServiceType::World => "RoboScapeWorld",
            ServiceType::Entity => "RoboScapeEntity",
            ServiceType::PositionSensor => "PositionSensor",
            ServiceType::LIDAR => "LIDARSensor",
            ServiceType::ProximitySensor => "ProximitySensor",
            ServiceType::Trigger => "RoboScapeTrigger",
            ServiceType::WaypointList => "WaypointList",
            ServiceType::Unknown => "Unknown",
        }
    }

    pub fn from_name(value: &String) -> (r: ServiceType)
        ensures
            r == Self::spec_from_name(value@),
    {
        if *value == owned("RoboScapeWorld") {
            ServiceType::World
        } else if *value == owned("RoboScapeEntity") {
            ServiceType::Entity
        } else if *value == owned("PositionSensor") {
            ServiceType::PositionSensor
        } else if *value == owned("LIDARSensor") {
            ServiceType::LIDAR
        } else if *value == owned("ProximitySensor") {
            ServiceType::ProximitySensor
        } else if *value == owned("RoboScapeTrigger") {
            ServiceType::Trigger
        } else if *value == owned("WaypointList") {
            ServiceType::WaypointList
        } else {
            ServiceType::Unknown
        }
    }
}

impl From<String> for ServiceType {
    fn from(value: String) -> (r: ServiceType) {
        ServiceType::from_name(&value)
    }
}

impl FromSpecImpl<String> for ServiceType {
    open spec fn obeys_from_spec() -> bool {
        true
    }

    open spec fn from_spec(v: String) -> ServiceType {
        ServiceType::spec_from_name(v@)
    }
}

/// Reading back the name of a kind of service gives that kind of service,
/// and no two kinds of service share a name.
pub proof fn lemma_service_name_round_trip(t: ServiceType)
    ensures
        ServiceType::spec_from_name(t.spec_name()) == t,
{
    reveal_strlit("RoboScapeWorld");
    reveal_strlit("RoboScapeEntity");
    reveal_strlit("PositionSensor");
    reveal_strlit("LIDARSensor");
    reveal_strlit("ProximitySensor");
    reveal_strlit("RoboScapeTrigger");
    reveal_strlit("WaypointList");
    reveal_strlit("Unknown");
    assert("RoboScapeWorld"@.len() == 14 && "RoboScapeWorld"@[0] == 'R');
    assert("RoboScapeEntity"@.len() == 15 && "RoboScapeEntity"@[0] == 'R');
    assert("PositionSensor"@.len() == 14 && "PositionSensor"@[0] == 'P');
    assert("LIDARSensor"@.len() == 11 && "LIDARSensor"@[0] == 'L');
    assert("ProximitySensor"@.len() == 15 && "ProximitySensor"@[0] == 'P');
    assert("RoboScapeTrigger"@.len() == 16 && "RoboScapeTrigger"@[0] == 'R');
    assert("WaypointList"@.len() == 12 && "WaypointList"@[0] == 'W');
    assert("Unknown"@.len() == 7 && "Unknown"@[0] == 'U');
}

} // verus!
