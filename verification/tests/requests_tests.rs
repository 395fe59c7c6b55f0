use roboscapesim::requests::{
    announce_due, device_id, handles, is_room_service, response_route, sensor_service, world_request, ResponseRoute,
    WorldRequest,
};
use roboscapesim::service_definition::definition_for;
use roboscapesim::service_type::ServiceType;

const ALL: [ServiceType; 8] = [
    ServiceType::World,
    ServiceType::Entity,
    ServiceType::PositionSensor,
    ServiceType::LIDAR,
    ServiceType::ProximitySensor,
    ServiceType::Trigger,
    ServiceType::WaypointList,
    ServiceType::Unknown,
];

#[test]
fn services_answer_their_announced_methods() {
    for service in ALL {
        if let Some(d) = definition_for(service, "id") {
            for (name, _) in &d.methods {
                assert!(handles(service, name), "{:?} {}", service, name);
            }
        }
        assert!(!handles(service, &"noSuchMethod".to_owned()));
    }
    assert!(!handles(ServiceType::Unknown, &"reset".to_owned()));
    assert!(handles(ServiceType::Entity, &"reset".to_owned()));
    assert!(!handles(ServiceType::PositionSensor, &"reset".to_owned()));
}

#[test]
fn world_requests_check_argument_counts() {
    assert_eq!(world_request(&"addBlock".to_owned(), 6), WorldRequest::TooFewArguments);
    assert_eq!(world_request(&"addBlock".to_owned(), 7), WorldRequest::AddBlock);
    assert_eq!(world_request(&"addRobot".to_owned(), 2), WorldRequest::TooFewArguments);
    assert_eq!(world_request(&"addRobot".to_owned(), 4), WorldRequest::AddRobot);
    assert_eq!(world_request(&"addSensor".to_owned(), 1), WorldRequest::TooFewArguments);
    assert_eq!(world_request(&"addSensor".to_owned(), 2), WorldRequest::AddSensor);
    assert_eq!(world_request(&"listUsers".to_owned(), 0), WorldRequest::ListUsers);
    assert_eq!(world_request(&"showText".to_owned(), 3), WorldRequest::ShowText);
    assert_eq!(world_request(&"fly".to_owned(), 0), WorldRequest::Unrecognized);
}

#[test]
fn long_answers_go_over_http() {
    assert_eq!(response_route(None), ResponseRoute::Udp);
    assert_eq!(response_route(Some(&vec![200, 300])), ResponseRoute::Udp);
    assert_eq!(response_route(Some(&vec![200, 301])), ResponseRoute::Http);
    assert_eq!(response_route(Some(&vec![])), ResponseRoute::Udp);
    assert!(!announce_due(225_000_000_000, 225_000_000_000));
    assert!(announce_due(225_000_000_001, 225_000_000_000));
}

#[test]
fn sensor_types_and_rpc_routing() {
    assert_eq!(sensor_service(&"lidar".to_owned()), Some(ServiceType::LIDAR));
    assert_eq!(sensor_service(&"position".to_owned()), Some(ServiceType::PositionSensor));
    assert_eq!(sensor_service(&"proximity".to_owned()), Some(ServiceType::ProximitySensor));
    assert_eq!(sensor_service(&"waypoint".to_owned()), Some(ServiceType::WaypointList));
    assert_eq!(sensor_service(&"entity".to_owned()), Some(ServiceType::Entity));
    assert_eq!(sensor_service(&"sonar".to_owned()), None);
    assert!(is_room_service(&"RoboScapeWorld".to_owned()));
    assert!(is_room_service(&"LIDARSensor".to_owned()));
    assert!(!is_room_service(&"RoboScape".to_owned()));
    assert_eq!(device_id("\"robot_1a2b\""), "robot_1a2b");
    assert_eq!(device_id("\"a\\\\b\""), "ab");
    assert_eq!(device_id("12"), "12");
}
