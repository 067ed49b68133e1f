use mcp2cli_rs::error::AppError;
use mcp2cli_rs::openapi::{
    is_url_source, response_payload, split_operation_params, Info, MediaType, OpenApiExecutor,
    OpenApiSpec, Operation, Parameter, PathItem, RequestBody, Server,
};
use mcp2cli_rs::output::{InputSchema, Payload, Protocol};

fn op(id: &str, summary: Option<&str>, description: Option<&str>) -> Operation {
    Operation {
        summary: summary.map(|s| s.to_string()),
        description: description.map(|s| s.to_string()),
        operation_id: id.to_string(),
        parameters: None,
        request_body: None,
        responses: Vec::new(),
    }
}

fn empty_item() -> PathItem {
    PathItem { get: None, post: None, put: None, delete: None, patch: None, parameters: None }
}

fn param(name: &str, required: Option<bool>, schema: Option<&str>) -> Parameter {
    Parameter {
        name: name.to_string(),
        location: "query".to_string(),
        description: None,
        required,
        schema: schema.map(|s| s.to_string()),
    }
}

fn sample_spec(servers: Option<Vec<Server>>) -> OpenApiSpec {
    let mut pets = empty_item();
    let mut list = op("listPets", Some("List pets"), None);
    list.parameters = Some(vec![
        param("limit", Some(true), Some("{\"type\":\"integer\"}")),
        param("tag", None, None),
    ]);
    pets.get = Some(list);
    let mut create = op("createPet", None, Some("Create a pet"));
    create.request_body = Some(RequestBody {
        description: None,
        content: vec![
            ("application/json".to_string(), MediaType { schema: Some("{\"type\":\"object\"}".to_string()) }),
            ("application/xml".to_string(), MediaType { schema: Some("{\"x\":1}".to_string()) }),
        ],
        required: Some(true),
    });
    pets.post = Some(create);
    let mut one = empty_item();
    one.delete = Some(op("deletePet", None, None));
    one.get = Some(op("showPet", None, None));
    OpenApiSpec {
        openapi: "3.0.0".to_string(),
        info: Info { title: "Pets".to_string(), description: None, version: "1".to_string() },
        servers,
        paths: vec![("/pets".to_string(), pets), ("/pets/{id}".to_string(), one)],
        components: None,
    }
}

#[test]
fn base_url_defaults() {
    let s = sample_spec(None);
    assert_eq!(s.get_base_url(), "http://localhost");
    let s = sample_spec(Some(vec![
        Server { url: "https://api.example.com/v1".to_string(), description: None },
        Server { url: "https://other".to_string(), description: None },
    ]));
    assert_eq!(s.get_base_url(), "https://api.example.com/v1");
    let e = OpenApiExecutor::new(sample_spec(Some(Vec::new())), None);
    assert_eq!(e.base_url, "http://localhost");
    let e = OpenApiExecutor::new(sample_spec(None), Some("http://given".to_string()));
    assert_eq!(e.base_url, "http://given");
}

#[test]
fn operations_in_path_then_method_order() {
    let s = sample_spec(None);
    let ops = s.get_operations();
    let seen: Vec<(String, String, String)> = ops
        .iter()
        .map(|(p, m, o)| (p.clone(), m.clone(), o.operation_id.clone()))
        .collect();
    assert_eq!(
        seen,
        vec![
            ("/pets".to_string(), "GET".to_string(), "listPets".to_string()),
            ("/pets".to_string(), "POST".to_string(), "createPet".to_string()),
            ("/pets/{id}".to_string(), "GET".to_string(), "showPet".to_string()),
            ("/pets/{id}".to_string(), "DELETE".to_string(), "deletePet".to_string()),
        ]
    );
}

#[test]
fn listed_descriptions() {
    let e = OpenApiExecutor::new(sample_spec(None), None);
    let listed = e.list_operations();
    assert_eq!(listed[0], ("listPets".to_string(), "GET".to_string(), "List pets".to_string()));
    assert_eq!(listed[1], ("createPet".to_string(), "POST".to_string(), "Create a pet".to_string()));
    assert_eq!(listed[2], ("showPet".to_string(), "GET".to_string(), "GET /pets/{id}".to_string()));
}

#[test]
fn find_and_miss_operations() {
    let e = OpenApiExecutor::new(sample_spec(None), None);
    let (path, method, o) = e.find_operation("deletePet").unwrap();
    assert_eq!(path, "/pets/{id}");
    assert_eq!(method, "DELETE");
    assert_eq!(o.operation_id, "deletePet");
    match e.find_operation("nope") {
        Err(AppError::Cli(m)) => assert_eq!(m, "Operation 'nope' not found"),
        _ => panic!("expected an error"),
    }
}

#[test]
fn every_listed_operation_is_found() {
    let e = OpenApiExecutor::new(sample_spec(None), None);
    for (name, method, _) in e.list_operations() {
        let (_, m, o) = e.find_operation(&name).unwrap();
        assert_eq!(o.operation_id, name);
        assert_eq!(m, method);
    }
}

#[test]
fn operation_schemas() {
    let e = OpenApiExecutor::new(sample_spec(None), None);
    let s = e.get_operation_schema("listPets").unwrap();
    assert_eq!(
        s.properties,
        vec![
            ("limit".to_string(), "{\"type\":\"integer\"}".to_string()),
            ("tag".to_string(), "{\"type\":\"string\"}".to_string()),
        ]
    );
    assert_eq!(s.required, vec!["limit".to_string()]);
    let s = e.get_operation_schema("createPet").unwrap();
    assert_eq!(s.properties, vec![("body".to_string(), "{\"type\":\"object\"}".to_string())]);
    assert_eq!(s.required, vec!["body".to_string()]);
    assert!(e.get_operation_schema("missing").is_err());
}

#[test]
fn urls_of_calls() {
    let e = OpenApiExecutor::new(sample_spec(None), Some("http://api.test/".to_string()));
    assert_eq!(e.build_url("/pets", &Vec::new(), &Vec::new()), "http://api.test/pets");
    let url = e.build_url(
        "/pets/{id}",
        &vec![("id".to_string(), "a/b".to_string())],
        &vec![("q".to_string(), "x y&z".to_string()), ("n".to_string(), "é".to_string())],
    );
    assert_eq!(url, "http://api.test/pets/a/b?q=x%20y%26z&n=%C3%A9");
    let t = e
        .request_target("showPet", &vec![("id".to_string(), "7".to_string())])
        .unwrap();
    assert_eq!(t.method, "GET");
    assert_eq!(t.url, "http://api.test/pets/7");
    assert_eq!(t.body, None);
    match e.request_target("nope", &Vec::new()) {
        Err(AppError::Cli(m)) => assert_eq!(m, "Operation 'nope' not found"),
        _ => panic!("expected a CLI error"),
    }
}

#[test]
fn operation_params_are_routed() {
    let ps = vec![
        ("id".to_string(), "pets/1".to_string()),
        ("body".to_string(), "{\"a\":1}".to_string()),
        ("limit".to_string(), "10".to_string()),
        ("at".to_string(), "12:00".to_string()),
        ("limit".to_string(), "20".to_string()),
    ];
    let (path, query, body) = split_operation_params("/pets", &ps);
    assert_eq!(path, vec![("id".to_string(), "pets/1".to_string()), ("at".to_string(), "12:00".to_string())]);
    assert_eq!(query, vec![("limit".to_string(), "20".to_string())]);
    assert_eq!(body, Some("{\"a\":1}".to_string()));
    let (_, _, body) = split_operation_params("/pets", &vec![
        ("body".to_string(), "{}".to_string()),
        ("body".to_string(), "not json".to_string()),
    ]);
    assert_eq!(body, None);
}

#[test]
fn replies_of_calls() {
    match response_payload(true, "200 OK", "{\"ok\":true}".to_string()) {
        Ok(Payload::Json(t)) => assert_eq!(t, "{\"ok\":true}"),
        _ => panic!("expected JSON"),
    }
    match response_payload(true, "200 OK", "plain".to_string()) {
        Ok(Payload::Text(t)) => assert_eq!(t, "plain"),
        _ => panic!("expected text"),
    }
    match response_payload(false, "404 Not Found", "nope".to_string()) {
        Err(AppError::Execution(m)) => assert_eq!(m, "HTTP 404 Not Found: nope"),
        _ => panic!("expected an error"),
    }
}

#[test]
fn manifest_of_operations() {
    let e = OpenApiExecutor::new(sample_spec(None), None);
    let m = e.tool_manifest("spec.json".to_string());
    assert_eq!(m.protocol, Protocol::OpenApi);
    assert_eq!(m.source, "spec.json");
    assert_eq!(m.version, Some("3.0".to_string()));
    assert_eq!(m.tools.len(), 4);
    assert_eq!(m.tools[0].name, "listPets");
    assert_eq!(m.tools[0].original_name, Some("listPets".to_string()));
    assert_eq!(m.tools[0].description, "GET List pets");
    assert_eq!(m.tools[2].description, "GET GET /pets/{id}");
    match &m.tools[1].input_schema {
        InputSchema::Operation(s) => assert_eq!(s.required, vec!["body".to_string()]),
        _ => panic!("expected an operation schema"),
    }
}

#[test]
fn sources() {
    assert!(is_url_source("https://x/openapi.json"));
    assert!(is_url_source("http://x"));
    assert!(!is_url_source("./openapi.json"));
}

#[test]
fn schema_property_names_are_distinct() {
    let mut spec = sample_spec(None);
    let mut o = op("upload", None, None);
    o.parameters = Some(vec![
        param("body", None, None),
        param("x", Some(true), None),
        param("x", None, Some("{\"type\":\"number\"}")),
    ]);
    o.request_body = Some(RequestBody {
        description: None,
        content: vec![("application/json".to_string(), MediaType { schema: Some("{}".to_string()) })],
        required: None,
    });
    let mut item = PathItem { get: None, post: None, put: None, delete: None, patch: None, parameters: None };
    item.put = Some(o);
    spec.paths.push(("/upload".to_string(), item));
    let e = OpenApiExecutor::new(spec, None);
    let s = e.get_operation_schema("upload").unwrap();
    assert_eq!(
        s.properties,
        vec![
            ("body".to_string(), "{}".to_string()),
            ("x".to_string(), "{\"type\":\"number\"}".to_string()),
        ]
    );
    assert_eq!(s.required, vec!["x".to_string()]);
}

#[test]
fn path_placeholders_are_filled_whatever_the_value() {
    let mut pet = empty_item();
    pet.get = Some(op("getPetById", None, None));
    let spec = OpenApiSpec {
        openapi: "3.0.0".to_string(),
        info: Info { title: "Petstore".to_string(), description: None, version: "1".to_string() },
        servers: None,
        paths: vec![("/pet/{petId}".to_string(), pet)],
        components: None,
    };
    assert!(spec.is_well_formed());
    let e = OpenApiExecutor::new(spec, Some("https://petstore.swagger.io/v2".to_string()));
    let t = e
        .request_target(
            "getPetById",
            &vec![("petId".to_string(), "1".to_string()), ("verbose".to_string(), "yes".to_string())],
        )
        .unwrap();
    assert_eq!(t.method, "GET");
    assert_eq!(t.url, "https://petstore.swagger.io/v2/pet/1?verbose=yes");
    let (path, query, _) = split_operation_params(
        "/pet/{petId}",
        &vec![("petId".to_string(), "1".to_string()), ("petId".to_string(), "2".to_string())],
    );
    assert_eq!(path, vec![("petId".to_string(), "2".to_string())]);
    assert!(query.is_empty());
}

#[test]
fn well_formed_documents() {
    assert!(sample_spec(None).is_well_formed());
    let mut s = sample_spec(None);
    s.paths.reverse();
    assert!(!s.is_well_formed());
    let mut s = sample_spec(None);
    s.paths.push(("/pets".to_string(), empty_item()));
    assert!(!s.is_well_formed());
    let mut s = sample_spec(None);
    if let Some(o) = s.paths[0].1.post.as_mut() {
        if let Some(rb) = o.request_body.as_mut() {
            rb.content.reverse();
        }
    }
    assert!(!s.is_well_formed());
}
