use vstd::prelude::*;
use vstd::string::*;

use crate::service_type::ServiceType;
use crate::util::owned;

verus! {

broadcast use vstd::string::group_string_axioms;

/// A parameter of a service method.
#[derive(Debug, Clone)]
pub struct MethodParam {
    pub name: String,
    pub documentation: Option<String>,
    pub param_type: String,
    pub optional: bool,
}

/// What a service method returns.
#[derive(Debug, Clone)]
pub struct MethodReturns {
    pub documentation: Option<String>,
    pub types: Vec<String>,
}

/// A method that a service offers.
#[derive(Debug, Clone)]
pub struct MethodDescription {
    pub documentation: Option<String>,
    pub params: Vec<MethodParam>,
    pub returns: MethodReturns,
}

/// An event that a service sends, by the names of its fields.
#[derive(Debug, Clone)]
pub struct EventDescription {
    pub params: Vec<String>,
}

/// What a service says of itself.
#[derive(Debug, Clone)]
pub struct ServiceDescription {
    pub description: Option<String>,
    pub external_documentation: Option<String>,
    pub terms_of_service: Option<String>,
    pub contact: Option<String>,
    pub license: Option<String>,
    pub version: String,
}

/// The interface of a service: its methods and events by name, in the order
/// of their names.
#[derive(Debug, Clone)]
pub struct ServiceDefinition {
    pub id: String,
    pub methods: Vec<(String, MethodDescription)>,
    pub events: Vec<(String, EventDescription)>,
    pub description: ServiceDescription,
}

/// A text that may be absent, by its characters.
pub open spec fn opt_text(o: Option<String>) -> Option<Seq<char>> {
    match o {
        Some(s) => Some(s@),
        None => None,
    }
}

/// A list of strings by their characters.
pub open spec fn texts_of(v: Seq<String>) -> Seq<Seq<char>> {
    v.map_values(|s: String| s@)
}

/// A parameter by its texts.
pub struct ParamView {
    pub name: Seq<char>,
    pub documentation: Option<Seq<char>>,
    pub param_type: Seq<char>,
    pub optional: bool,
}

/// A method by its texts.
pub struct MethodView {
    pub documentation: Option<Seq<char>>,
    pub params: Seq<ParamView>,
    pub returns_documentation: Option<Seq<char>>,
    pub returns_types: Seq<Seq<char>>,
}

/// A service's own description by its texts.
pub struct DescriptionView {
    pub description: Option<Seq<char>>,
    pub external_documentation: Option<Seq<char>>,
    pub terms_of_service: Option<Seq<char>>,
    pub contact: Option<Seq<char>>,
    pub license: Option<Seq<char>>,
    pub version: Seq<char>,
}

/// A service definition by its texts.
pub struct DefinitionView {
    pub id: Seq<char>,
    pub methods: Seq<(Seq<char>, MethodView)>,
    pub events: Seq<(Seq<char>, Seq<Seq<char>>)>,
    pub description: DescriptionView,
}

impl MethodParam {
    pub open spec fn view(&self) -> ParamView {
        ParamView {
            name: self.name@,
            documentation: opt_text(self.documentation),
            param_type: self.param_type@,
            optional: self.optional,
        }
    }
}

impl MethodDescription {
    pub open spec fn view(&self) -> MethodView {
        MethodView {
            documentation: opt_text(self.documentation),
            params: self.params@.map_values(|p: MethodParam| p.view()),
            returns_documentation: opt_text(self.returns.documentation),
            returns_types: texts_of(self.returns.types@),
        }
    }
}

impl ServiceDefinition {
    pub open spec fn view(&self) -> DefinitionView {
        DefinitionView {
            id: self.id@,
            methods: self.methods@.map_values(|m: (String, MethodDescription)| (m.0@, m.1.view())),
            events: self.events@.map_values(|e: (String, EventDescription)| (e.0@, texts_of(e.1.params@))),
            description: DescriptionView {
                description: opt_text(self.description.description),
                external_documentation: opt_text(self.description.external_documentation),
                terms_of_service: opt_text(self.description.terms_of_service),
                contact: opt_text(self.description.contact),
                license: opt_text(self.description.license),
                version: self.description.version@,
            },
        }
    }
}

/// A required or optional parameter with its documentation.
pub open spec fn pv(name: Seq<char>, documentation: Seq<char>, param_type: Seq<char>, optional: bool) -> ParamView {
    ParamView { name, documentation: Some(documentation), param_type, optional }
}

/// A documented method.
pub open spec fn mv(
    documentation: Seq<char>,
    params: Seq<ParamView>,
    returns_documentation: Option<Seq<char>>,
    returns_types: Seq<Seq<char>>,
) -> MethodView {
    MethodView { documentation: Some(documentation), params, returns_documentation, returns_types }
}

/// The position and heading parameters that placing an object takes.
pub open spec fn placement() -> Seq<ParamView> {
    seq![
        pv("x"@, "X position"@, "number"@, false),
        pv("y"@, "Y position"@, "number"@, false),
        pv("z"@, "Z position"@, "number"@, false),
        pv("heading"@, "Direction"@, "number"@, false),
    ]
}

/// `n` copies of a type name.
pub open spec fn repeated(s: Seq<char>, n: nat) -> Seq<Seq<char>> {
    Seq::new(n, |i: int| s)
}

/// Two strings, the return type of listings.
pub open spec fn two_strings() -> Seq<Seq<char>> {
    seq!["string"@, "string"@]
}

/// The methods of the world service, in the order of their names.
pub open spec fn world_methods() -> Seq<(Seq<char>, MethodView)> {
    seq![
        (
            "addBlock"@,
            mv(
                "Add a block to the World"@,
                placement() + seq![
                    pv("width"@, "X-axis size"@, "number"@, false),
                    pv("height"@, "Y-axis size"@, "number"@, false),
                    pv("depth"@, "Z-axis size"@, "number"@, false),
                    pv("kinematic"@, "Should block be unaffected by physics"@, "boolean"@, true),
                    pv("visualInfo"@, "Block's looks. Color or texture"@, "string"@, true),
                ],
                Some("ID of created block"@),
                seq!["string"@],
            ),
        ),
        (
            "addEntity"@,
            mv(
                "Add Entity to the World"@,
                seq![
                    pv("type"@, "Type of entity (block, ball, trigger, robot)"@, "string"@, false),
                    pv("x"@, "X position"@, "number"@, false),
                    pv("y"@, "Y position"@, "number"@, false),
                    pv("z"@, "Z position"@, "number"@, false),
                    pv("rotation"@, "Yaw, or list of pitch, yaw, roll"@, "string"@, false),
                    pv("options"@, "2-D list of e.g. visualInfo, size, isKinematic"@, "string"@, true),
                ],
                Some("ID of created entity"@),
                seq!["string"@],
            ),
        ),
        ("addRobot"@, mv("Add robot to the World"@, placement(), Some("ID of created Entity"@), seq!["string"@])),
        (
            "addSensor"@,
            mv(
                "Add a sensor to some object in the World"@,
                seq![
                    pv("type"@, "Type of sensor (position, LIDAR, proximity, etc)"@, "string"@, false),
                    pv("object"@, "Object to attach service to"@, "string"@, false),
                    pv("options"@, "Two-dimensional list of options, e.g. lidar settings"@, "string"@, true),
                ],
                Some("ID of created sensor"@),
                seq!["string"@],
            ),
        ),
        ("clearText"@, mv("Clear messages on 3d view"@, seq![], None, seq![])),
        (
            "instantiateEntities"@,
            mv(
                "Add a list of Entities to the World"@,
                seq![pv("entities"@, "List of Entity data to add"@, "Array"@, false)],
                Some("Created Entities' IDs"@),
                two_strings(),
            ),
        ),
        ("listEntities"@, mv("List Entities in this World"@, seq![], Some("Info of Entities in World"@), two_strings())),
        ("listMeshes"@, mv("List available meshes"@, seq![], None, two_strings())),
        ("listTextures"@, mv("List available textures"@, seq![], None, two_strings())),
        ("listUsers"@, mv("List users in room"@, seq![], None, two_strings())),
        ("removeAllEntities"@, mv("Remove all Entities from the world"@, seq![], None, seq![])),
        (
            "removeEntity"@,
            mv(
                "Remove an Entity from the world"@,
                seq![pv("entity"@, "ID of Entity to remove"@, "string"@, false)],
                None,
                seq![],
            ),
        ),
        ("reset"@, mv("Reset conditions of World"@, seq![], None, seq![])),
        (
            "showText"@,
            mv(
                "Show a message on 3d view"@,
                seq![
                    pv("textbox_id"@, "ID of text box to update/create"@, "string"@, false),
                    pv("text"@, "Message text"@, "string"@, false),
                    pv("timeout"@, "Time (in s) to show message for"@, "number"@, true),
                ],
                None,
                seq![],
            ),
        ),
    ]
}

/// The events of the world service, in the order of their names.
pub open spec fn world_events() -> Seq<(Seq<char>, Seq<Seq<char>>)> {
    seq![("reset"@, seq![]), ("userJoined"@, seq!["username"@]), ("userLeft"@, seq!["username"@])]
}

/// The world service's interface under the id `id`.
pub open spec fn world_definition(id: Seq<char>) -> DefinitionView {
    DefinitionView {
        id,
        methods: world_methods(),
        events: world_events(),
        description: DescriptionView {
            description: Some("Service for managing a RoboScape Online simulation"@),
            external_documentation: None,
            terms_of_service: None,
            contact: Some("gstein@ltu.edu"@),
            license: None,
            version: "1"@,
        },
    }
}

fn text(s: &str) -> (r: Option<String>)
    ensures
        opt_text(r) == Some(s@),
{
    Some(owned(s))
}

fn param(name: &str, documentation: &str, param_type: &str, optional: bool) -> (p: MethodParam)
    ensures
        p.view() == pv(name@, documentation@, param_type@, optional),
{
    MethodParam { name: owned(name), documentation: text(documentation), param_type: owned(param_type), optional }
}

fn types(first: &str, count: usize) -> (v: Vec<String>)
    ensures
        texts_of(v@) == repeated(first@, count as nat),
{
    let mut v: Vec<String> = Vec::new();
    let mut i: usize = 0;
    while i < count
        invariant
            i <= count,
            v.len() == i,
            texts_of(v@) == repeated(first@, i as nat),
        decreases count - i,
    {
        let ghost before = v@;
        v.push(owned(first));
        assert forall|j: int| 0 <= j < i + 1 implies #[trigger] texts_of(v@)[j] == first@ by {
            if j < i {
                assert(v@[j] == before[j]);
                assert(texts_of(before)[j] == repeated(first@, i as nat)[j]);
            }
        }
        assert(texts_of(v@) =~= repeated(first@, (i + 1) as nat));
        i += 1;
    }
    v
}

fn method(documentation: &str, params: Vec<MethodParam>, returns_documentation: Option<String>, returns_types: Vec<String>) -> (m:
    MethodDescription)
    ensures
        m.view() == mv(
            documentation@,
            params@.map_values(|p: MethodParam| p.view()),
            opt_text(returns_documentation),
            texts_of(returns_types@),
        ),
{
    MethodDescription {
        documentation: text(documentation),
        params,
        returns: MethodReturns { documentation: returns_documentation, types: returns_types },
    }
}

fn placement_params() -> (v: Vec<MethodParam>)
    ensures
        v@.map_values(|p: MethodParam| p.view()) == placement(),
{
    let v = vec![
        param("x", "X position", "number", false),
        param("y", "Y position", "number", false),
        param("z", "Z position", "number", false),
        param("heading", "Direction", "number", false),
    ];
    assert(v@.map_values(|p: MethodParam| p.view()) =~= placement());
    v
}

fn add_block() -> (m: MethodDescription)
    ensures
        m.view() == world_methods()[0].1,
{
    let mut params = placement_params();
    let ghost head = params@;
    let extra = vec![
        param("width", "X-axis size", "number", false),
        param("height", "Y-axis size", "number", false),
        param("depth", "Z-axis size", "number", false),
        param("kinematic", "Should block be unaffected by physics", "boolean", true),
        param("visualInfo", "Block's looks. Color or texture", "string", true),
    ];
    let ghost tail = extra@;
    let mut extra = extra;
    params.append(&mut extra);
    assert(params@.map_values(|p: MethodParam| p.view()) =~= head.map_values(|p: MethodParam| p.view())
        + tail.map_values(|p: MethodParam| p.view()));
    assert(tail.map_values(|p: MethodParam| p.view()) =~= world_methods()[0].1.params.subrange(4, 9));
    assert(params@.map_values(|p: MethodParam| p.view()) =~= world_methods()[0].1.params);
    assert(repeated("string"@, 1) =~= seq!["string"@]);
    method("Add a block to the World", params, text("ID of created block"), types("string", 1))
}

fn add_entity() -> (m: MethodDescription)
    ensures
        m.view() == world_methods()[1].1,
{
    let params = vec![
        param("type", "Type of entity (block, ball, trigger, robot)", "string", false),
        param("x", "X position", "number", false),
        param("y", "Y position", "number", false),
        param("z", "Z position", "number", false),
        param("rotation", "Yaw, or list of pitch, yaw, roll", "string", false),
        param("options", "2-D list of e.g. visualInfo, size, isKinematic", "string", true),
    ];
    assert(params@.map_values(|p: MethodParam| p.view()) =~= world_methods()[1].1.params);
    assert(repeated("string"@, 1) =~= seq!["string"@]);
    method("Add Entity to the World", params, text("ID of created entity"), types("string", 1))
}

fn add_sensor() -> (m: MethodDescription)
    ensures
        m.view() == world_methods()[3].1,
{
    let params = vec![
        param("type", "Type of sensor (position, LIDAR, proximity, etc)", "string", false),
        param("object", "Object to attach service to", "string", false),
        param("options", "Two-dimensional list of options, e.g. lidar settings", "string", true),
    ];
    assert(params@.map_values(|p: MethodParam| p.view()) =~= world_methods()[3].1.params);
    assert(repeated("string"@, 1) =~= seq!["string"@]);
    method("Add a sensor to some object in the World", params, text("ID of created sensor"), types("string", 1))
}

fn show_text() -> (m: MethodDescription)
    ensures
        m.view() == world_methods()[13].1,
{
    let params = vec![
        param("textbox_id", "ID of text box to update/create", "string", false),
        param("text", "Message text", "string", false),
        param("timeout", "Time (in s) to show message for", "number", true),
    ];
    assert(params@.map_values(|p: MethodParam| p.view()) =~= world_methods()[13].1.params);
    assert(repeated("string"@, 0) =~= Seq::<Seq<char>>::empty());
    method("Show a message on 3d view", params, None, types("string", 0))
}

fn single_param_method(
    documentation: &str,
    name: &str,
    param_documentation: &str,
    param_type: &str,
    returns_documentation: Option<String>,
    returns_types: Vec<String>,
) -> (m: MethodDescription)
    ensures
        m.view() == mv(
            documentation@,
            seq![pv(name@, param_documentation@, param_type@, false)],
            opt_text(returns_documentation),
            texts_of(returns_types@),
        ),
{
    let params = vec![param(name, param_documentation, param_type, false)];
    assert(params@.map_values(|p: MethodParam| p.view()) =~= seq![pv(name@, param_documentation@, param_type@, false)]);
    method(documentation, params, returns_documentation, returns_types)
}

fn no_param_method(documentation: &str, returns_documentation: Option<String>, returns_types: Vec<String>) -> (m:
    MethodDescription)
    ensures
        m.view() == mv(documentation@, seq![], opt_text(returns_documentation), texts_of(returns_types@)),
{
    let params: Vec<MethodParam> = Vec::new();
    assert(params@.map_values(|p: MethodParam| p.view()) =~= Seq::<ParamView>::empty());
    method(documentation, params, returns_documentation, returns_types)
}

fn event(params: Vec<String>) -> (e: EventDescription)
    ensures
        e.params == params,
{
    EventDescription { params }
}

/// The interface that the world service of a room announces, under `id`.
pub fn get_service_definition(id: &str) -> (definition: ServiceDefinition)
    ensures
        definition.view() == world_definition(id@),
{
    let add_robot = method("Add robot to the World", placement_params(), text("ID of created Entity"), types("string", 1));
    let instantiate = single_param_method(
        "Add a list of Entities to the World",
        "entities",
        "List of Entity data to add",
        "Array",
        text("Created Entities' IDs"),
        types("string", 2),
    );
    let remove_entity = single_param_method(
        "Remove an Entity from the world",
        "entity",
        "ID of Entity to remove",
        "string",
        None,
        types("string", 0),
    );
    let methods = vec![
        (owned("addBlock"), add_block()),
        (owned("addEntity"), add_entity()),
        (owned("addRobot"), add_robot),
        (owned("addSensor"), add_sensor()),
        (owned("clearText"), no_param_method("Clear messages on 3d view", None, types("string", 0))),
        (owned("instantiateEntities"), instantiate),
        (
            owned("listEntities"),
            no_param_method("List Entities in this World", text("Info of Entities in World"), types("string", 2)),
        ),
        (owned("listMeshes"), no_param_method("List available meshes", None, types("string", 2))),
        (owned("listTextures"), no_param_method("List available textures", None, types("string", 2))),
        (owned("listUsers"), no_param_method("List users in room", None, types("string", 2))),
        (owned("removeAllEntities"), no_param_method("Remove all Entities from the world", None, types("string", 0))),
        (owned("removeEntity"), remove_entity),
        (owned("reset"), no_param_method("Reset conditions of World", None, types("string", 0))),
        (owned("showText"), show_text()),
    ];
    let events = vec![
        (owned("reset"), event(Vec::new())),
        (owned("userJoined"), event(vec![owned("username")])),
        (owned("userLeft"), event(vec![owned("username")])),
    ];
    let definition = ServiceDefinition {
        id: owned(id),
        methods,
        events,
        description: ServiceDescription {
            description: text("Service for managing a RoboScape Online simulation"),
            external_documentation: None,
            terms_of_service: None,
            contact: text("gstein@ltu.edu"),
            license: None,
            version: owned("1"),
        },
    };
    proof {
        assert(repeated("string"@, 0) =~= Seq::<Seq<char>>::empty());
        assert(repeated("string"@, 1) =~= seq!["string"@]);
        assert(repeated("string"@, 2) =~= two_strings());
        assert(definition.view().methods =~= world_methods());
        assert(texts_of(definition.events@[1].1.params@) =~= seq!["username"@]);
        assert(texts_of(definition.events@[2].1.params@) =~= seq!["username"@]);
        assert(texts_of(definition.events@[0].1.params@) =~= Seq::<Seq<char>>::empty());
        assert(definition.view().events =~= world_events());
    }
    definition
}

/// The description every service of a room gives, with its own summary.
pub open spec fn described(summary: Seq<char>) -> DescriptionView {
    DescriptionView {
        description: Some(summary),
        external_documentation: None,
        terms_of_service: None,
        contact: Some("gstein@ltu.edu"@),
        license: None,
        version: "1"@,
    }
}

/// A method without parameters or return documentation that returns `n`
/// values of one type.
pub open spec fn getter(documentation: Seq<char>, value_type: Seq<char>, n: nat) -> MethodView {
    mv(documentation, seq![], None, repeated(value_type, n))
}

/// Three number parameters.
pub open spec fn three_numbers(names: Seq<Seq<char>>, docs: Seq<Seq<char>>) -> Seq<ParamView> {
    seq![
        pv(names[0], docs[0], "number"@, false),
        pv(names[1], docs[1], "number"@, false),
        pv(names[2], docs[2], "number"@, false),
    ]
}

/// The interface of each kind of service under the id `id`; the world's is
/// `world_definition`.
pub open spec fn spec_definition(service: ServiceType, id: Seq<char>) -> Option<DefinitionView> {
    match service {
        ServiceType::World => Some(world_definition(id)),
        ServiceType::Entity => Some(
            DefinitionView {
                id,
                methods: seq![
                    ("getPosition"@, getter("Get XYZ coordinate position of object"@, "number"@, 3)),
                    ("getRotation"@, getter("Get Euler angle rotation of object"@, "number"@, 3)),
                    ("reset"@, getter("Reset conditions of Entity"@, "string"@, 0)),
                    (
                        "setPosition"@,
                        mv(
                            "Set position"@,
                            three_numbers(seq!["x"@, "y"@, "z"@], seq!["X position"@, "Y position"@, "Z position"@]),
                            None,
                            seq![],
                        ),
                    ),
                    (
                        "setRotation"@,
                        mv(
                            "Set rotation"@,
                            three_numbers(
                                seq!["pitch"@, "yaw"@, "roll"@],
                                seq!["X rotation"@, "Y rotation"@, "Z rotation"@],
                            ),
                            None,
                            seq![],
                        ),
                    ),
                ],
                events: seq![],
                description: described("Service for managing objects in a RoboScape Online simulation"@),
            },
        ),
        ServiceType::PositionSensor => Some(
            DefinitionView {
                id,
                methods: seq![
                    ("getHeading"@, getter("Get heading direction (yaw) of object"@, "number"@, 1)),
                    ("getPosition"@, getter("Get XYZ coordinate position of object"@, "number"@, 3)),
                    ("getX"@, getter("Get X coordinate position of object"@, "number"@, 1)),
                    ("getY"@, getter("Get Y coordinate position of object"@, "number"@, 1)),
                    ("getZ"@, getter("Get Z coordinate position of object"@, "number"@, 1)),
                ],
                events: seq![],
                description: described("Get the position and orientation of an object"@),
            },
        ),
        ServiceType::LIDAR => Some(
            DefinitionView {
                id,
                methods: seq![("getRange"@, getter("Get list of distances around the sensor"@, "number"@, 2))],
                events: seq![],
                description: described("Get distances at multiple angles"@),
            },
        ),
        ServiceType::ProximitySensor => Some(
            DefinitionView {
                id,
                methods: seq![
                    ("dig"@, getter("Get heading direction (yaw) of object"@, "number"@, 0)),
                    ("getIntensity"@, getter("Get sensor reading at current position"@, "number"@, 1)),
                ],
                events: seq![("dig"@, seq![])],
                description: described("Get the position and orientation of an object"@),
            },
        ),
        ServiceType::Trigger => Some(
            DefinitionView {
                id,
                methods: seq![
                    (
                        "entitiesInside"@,
                        mv(
                            "Get a list of entities inside the trigger"@,
                            seq![],
                            Some("List of entities inside the trigger"@),
                            repeated("string"@, 2),
                        ),
                    ),
                ],
                events: seq![
                    ("triggerEnter"@, seq!["entity"@, "trigger"@]),
                    ("triggerExit"@, seq!["entity"@, "trigger"@]),
                ],
                description: described("Service for listening to trigger events in a RoboScape Online simulation"@),
            },
        ),
        ServiceType::WaypointList => Some(
            DefinitionView {
                id,
                methods: seq![("getNextWaypoint"@, getter("Get the next waypoint to navigate to"@, "number"@, 3))],
                events: seq![],
                description: described("Get the position and orientation of an object"@),
            },
        ),
        ServiceType::Unknown => None,
    }
}

fn describe(summary: &str) -> (d: ServiceDescription)
    ensures
        opt_text(d.description) == Some(summary@),
        d.external_documentation is None,
        d.terms_of_service is None,
        opt_text(d.contact) == Some("gstein@ltu.edu"@),
        d.license is None,
        d.version@ == "1"@,
{
    ServiceDescription {
        description: text(summary),
        external_documentation: None,
        terms_of_service: None,
        contact: text("gstein@ltu.edu"),
        license: None,
        version: owned("1"),
    }
}

fn getter_method(documentation: &str, value_type: &str, n: usize) -> (m: MethodDescription)
    ensures
        m.view() == getter(documentation@, value_type@, n as nat),
{
    no_param_method(documentation, None, types(value_type, n))
}

fn number_setter(documentation: &str, names: [&str; 3], docs: [&str; 3]) -> (m: MethodDescription)
    ensures
        m.view() == mv(
            documentation@,
            three_numbers(seq![names[0]@, names[1]@, names[2]@], seq![docs[0]@, docs[1]@, docs[2]@]),
            None,
            seq![],
        ),
{
    let params = vec![
        param(names[0], docs[0], "number", false),
        param(names[1], docs[1], "number", false),
        param(names[2], docs[2], "number", false),
    ];
    assert(params@.map_values(|p: MethodParam| p.view()) =~= three_numbers(
        seq![names[0]@, names[1]@, names[2]@],
        seq![docs[0]@, docs[1]@, docs[2]@],
    ));
    let m = method(documentation, params, None, types("string", 0));
    assert(repeated("string"@, 0) =~= Seq::<Seq<char>>::empty());
    m
}

fn assemble(
    id: &str,
    methods: Vec<(String, MethodDescription)>,
    events: Vec<(String, EventDescription)>,
    summary: &str,
) -> (d: ServiceDefinition)
    ensures
        d.id@ == id@,
        d.methods == methods,
        d.events == events,
        d.view().description == described(summary@),
{
    ServiceDefinition { id: owned(id), methods, events, description: describe(summary) }
}

/// The interface that a service of a room announces, under `id`; a service
/// of unknown kind has none.
pub fn definition_for(service: ServiceType, id: &str) -> (definition: Option<ServiceDefinition>)
    ensures
        match definition {
            Some(d) => spec_definition(service, id@) == Some(d.view()),
            None => spec_definition(service, id@) is None,
        },
{
    match service {
        ServiceType::World => Some(get_service_definition(id)),
        ServiceType::Entity => {
            let methods = vec![
                (owned("getPosition"), getter_method("Get XYZ coordinate position of object", "number", 3)),
                (owned("getRotation"), getter_method("Get Euler angle rotation of object", "number", 3)),
                (owned("reset"), getter_method("Reset conditions of Entity", "string", 0)),
                (owned("setPosition"), number_setter("Set position", ["x", "y", "z"], ["X position", "Y position", "Z position"])),
                (
                    owned("setRotation"),
                    number_setter("Set rotation", ["pitch", "yaw", "roll"], ["X rotation", "Y rotation", "Z rotation"]),
                ),
            ];
            let d = assemble(id, methods, Vec::new(), "Service for managing objects in a RoboScape Online simulation");
            assert(d.view().methods =~= spec_definition(service, id@)->0.methods);
            assert(d.view().events =~= spec_definition(service, id@)->0.events);
            Some(d)
        },
        ServiceType::PositionSensor => {
            let methods = vec![
                (owned("getHeading"), getter_method("Get heading direction (yaw) of object", "number", 1)),
                (owned("getPosition"), getter_method("Get XYZ coordinate position of object", "number", 3)),
                (owned("getX"), getter_method("Get X coordinate position of object", "number", 1)),
                (owned("getY"), getter_method("Get Y coordinate position of object", "number", 1)),
                (owned("getZ"), getter_method("Get Z coordinate position of object", "number", 1)),
            ];
            let d = assemble(id, methods, Vec::new(), "Get the position and orientation of an object");
            assert(d.view().methods =~= spec_definition(service, id@)->0.methods);
            assert(d.view().events =~= spec_definition(service, id@)->0.events);
            Some(d)
        },
        ServiceType::LIDAR => {
            let methods = vec![(owned("getRange"), getter_method("Get list of distances around the sensor", "number", 2))];
            let d = assemble(id, methods, Vec::new(), "Get distances at multiple angles");
            assert(d.view().methods =~= spec_definition(service, id@)->0.methods);
            assert(d.view().events =~= spec_definition(service, id@)->0.events);
            Some(d)
        },
        ServiceType::ProximitySensor => {
            let methods = vec![
                (owned("dig"), getter_method("Get heading direction (yaw) of object", "number", 0)),
                (owned("getIntensity"), getter_method("Get sensor reading at current position", "number", 1)),
            ];
            let events = vec![(owned("dig"), event(Vec::new()))];
            let d = assemble(id, methods, events, "Get the position and orientation of an object");
            assert(texts_of(d.events@[0].1.params@) =~= Seq::<Seq<char>>::empty());
            assert(d.view().methods =~= spec_definition(service, id@)->0.methods);
            assert(d.view().events =~= spec_definition(service, id@)->0.events);
            Some(d)
        },
        ServiceType::Trigger => {
            let methods = vec![
                (
                    owned("entitiesInside"),
                    no_param_method(
                        "Get a list of entities inside the trigger",
                        text("List of entities inside the trigger"),
                        types("string", 2),
                    ),
                ),
            ];
            let events = vec![
                (owned("triggerEnter"), event(vec![owned("entity"), owned("trigger")])),
                (owned("triggerExit"), event(vec![owned("entity"), owned("trigger")])),
            ];
            let d = assemble(
                id,
                methods,
                events,
                "Service for listening to trigger events in a RoboScape Online simulation",
            );
            assert(texts_of(d.events@[0].1.params@) =~= seq!["entity"@, "trigger"@]);
            assert(texts_of(d.events@[1].1.params@) =~= seq!["entity"@, "trigger"@]);
            assert(d.view().methods =~= spec_definition(service, id@)->0.methods);
            assert(d.view().events =~= spec_definition(service, id@)->0.events);
            Some(d)
        },
        ServiceType::WaypointList => {
            let methods = vec![(owned("getNextWaypoint"), getter_method("Get the next waypoint to navigate to", "number", 3))];
            let d = assemble(id, methods, Vec::new(), "Get the position and orientation of an object");
            assert(d.view().methods =~= spec_definition(service, id@)->0.methods);
            assert(d.view().events =~= spec_definition(service, id@)->0.events);
            Some(d)
        },
        ServiceType::Unknown => None,
    }
}

} // verus!
