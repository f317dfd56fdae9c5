use broquest::domain::{AuthType, HttpMethod};
use broquest::import::{
    convert_path_params_format, extract_request_body, extract_schema_imports, import_from_wsdl, sanitize_path_name, BodyContent,
    OpenAPIImporter, OperationInfo, OperationParameter, ParameterLocation, WsdlImportOutput, WsdlOperationInfo,
};

#[test]
fn test_convert_path_params_format() {
    assert_eq!(convert_path_params_format("/pets/{id}"), "/pets/:id");
    assert_eq!(convert_path_params_format("/users/{userId}"), "/users/:userId");
    assert_eq!(convert_path_params_format("/pets/{petId}/owner/{ownerId}"), "/pets/:petId/owner/:ownerId");
    assert_eq!(convert_path_params_format("/pets"), "/pets");
    assert_eq!(convert_path_params_format("/api/v1/users"), "/api/v1/users");
    assert_eq!(
        convert_path_params_format("/api/v1/pets/{petId}/comments/{commentId}"),
        "/api/v1/pets/:petId/comments/:commentId"
    );
    assert_eq!(convert_path_params_format("/pets/{id}/"), "/pets/:id/");
}

#[test]
fn unclosed_path_param_takes_the_rest() {
    assert_eq!(convert_path_params_format("/a/{open"), "/a/:open");
}

#[test]
fn sanitized_path_names() {
    assert_eq!(sanitize_path_name("/pets/{petId}"), "pets-petId");
    assert_eq!(sanitize_path_name("//api/v1"), "api-v1");
    assert_eq!(sanitize_path_name(""), "");
}

fn op(method: &str, path: &str, tag: Option<&str>, id: Option<&str>) -> OperationInfo {
    OperationInfo {
        method: method.to_string(),
        path: path.to_string(),
        tags: tag.map(|t| vec![t.to_string()]).unwrap_or_default(),
        operation_id: id.map(|s| s.to_string()),
        parameters: vec![],
        request_body: None,
    }
}

#[test]
fn request_bodies_of_operations() {
    assert_eq!(extract_request_body(&None, "post"), "{}");
    assert_eq!(extract_request_body(&None, "get"), "");
    let contents = Some(vec![
        BodyContent { content_type: "text/plain".to_string(), sample: Some("x".to_string()) },
        BodyContent { content_type: "application/json".to_string(), sample: Some("{\"a\": 1}".to_string()) },
    ]);
    assert_eq!(extract_request_body(&contents, "get"), "{\"a\": 1}");
    let no_sample = Some(vec![BodyContent { content_type: "*/*".to_string(), sample: None }]);
    assert_eq!(extract_request_body(&no_sample, "delete"), "{}");
}

#[test]
fn openapi_request_from_operation() {
    let mut o = op("get", "/pets/{petId}", Some("pets"), None);
    o.parameters = vec![
        OperationParameter { name: "petId".to_string(), location: ParameterLocation::Path },
        OperationParameter { name: "limit".to_string(), location: ParameterLocation::Query },
        OperationParameter { name: "X-Trace".to_string(), location: ParameterLocation::Header },
        OperationParameter { name: "session".to_string(), location: ParameterLocation::Cookie },
        OperationParameter { name: "theme".to_string(), location: ParameterLocation::Cookie },
    ];
    let importer = OpenAPIImporter::new(vec![o.clone()], &vec!["http://petstore.swagger.io/v1".to_string()]);
    let r = importer.create_request(&o);
    assert_eq!(r.name, "GET pets-petId");
    assert_eq!(r.method, HttpMethod::Get);
    assert_eq!(r.url, "{{baseUrl}}/pets/:petId");
    assert_eq!(r.path_params.len(), 1);
    assert_eq!(r.path_params[0].key, "petId");
    assert_eq!(r.query_params[0].key, "limit");
    assert_eq!(r.headers.len(), 2);
    assert_eq!(r.headers[0].key, "X-Trace");
    assert_eq!(r.headers[1].key, "Cookie");
    assert_eq!(r.headers[1].value, "session=; theme=");
    assert_eq!(r.body, "");
    assert!(matches!(r.auth, AuthType::NoAuth));
}

#[test]
fn openapi_import_groups_by_first_tag() {
    let ops = vec![
        op("get", "/pets", Some("pets"), Some("listPets")),
        op("post", "/users", Some("users"), Some("createUser")),
        op("get", "/health", None, Some("health")),
        op("post", "/pets", Some("pets"), Some("createPet")),
    ];
    let importer = OpenAPIImporter::new(ops, &vec![]);
    let result = importer.import();
    assert_eq!(result.environment.name, "Default");
    assert_eq!(result.environment.variables.len(), 1);
    assert_eq!(result.environment.variables[0].0, "baseUrl");
    assert_eq!(result.environment.variables[0].1.value, "http://localhost");
    assert_eq!(result.groups.len(), 2);
    assert_eq!(result.groups[0].0, "pets");
    let pet_names: Vec<&str> = result.groups[0].1.iter().map(|r| r.name.as_str()).collect();
    assert_eq!(pet_names, vec!["listPets", "createPet"]);
    assert_eq!(result.groups[0].1[1].body, "{}");
    assert_eq!(result.groups[1].0, "users");
    assert_eq!(result.requests.len(), 1);
    assert_eq!(result.requests[0].name, "health");
}

#[test]
fn wsdl_import() {
    let output = WsdlImportOutput {
        operations: vec![
            WsdlOperationInfo {
                name: "Add".to_string(),
                group: Some("CalculatorSoap".to_string()),
                soap_action: Some("http://tempuri.org/Add".to_string()),
                soap_envelope: "<soap:Envelope/>".to_string(),
            },
            WsdlOperationInfo {
                name: "Ping".to_string(),
                group: None,
                soap_action: None,
                soap_envelope: "<e/>".to_string(),
            },
            WsdlOperationInfo {
                name: "Sub".to_string(),
                group: Some("AdminSoap".to_string()),
                soap_action: None,
                soap_envelope: "<s/>".to_string(),
            },
        ],
        endpoint_url: "http://www.dneonline.com/calculator.asmx".to_string(),
    };
    let result = import_from_wsdl(output);
    assert_eq!(result.environment.variables[0].1.value, "http://www.dneonline.com/calculator.asmx");
    assert_eq!(result.groups.len(), 2);
    assert_eq!(result.groups[0].0, "AdminSoap");
    assert_eq!(result.groups[1].0, "CalculatorSoap");
    let add = &result.groups[1].1[0];
    assert_eq!(add.method, HttpMethod::Post);
    assert_eq!(add.url, "{{baseUrl}}");
    assert_eq!(add.headers[0].key, "Content-Type");
    assert_eq!(add.headers[0].value, "text/xml; charset=utf-8");
    assert_eq!(add.headers[1].key, "SOAPAction");
    assert_eq!(add.headers[1].value, "http://tempuri.org/Add");
    assert_eq!(add.body, "<soap:Envelope/>");
    assert_eq!(result.requests.len(), 1);
    assert_eq!(result.requests[0].headers[1].value, "");
}

#[test]
fn schema_imports_are_found() {
    let xsd = r#"<xs:schema xmlns:xs="http://www.w3.org/2001/XMLSchema">
  <xs:import namespace="urn:a" schemaLocation="a.xsd"/>
  <import schemaLocation="b.xsd" namespace="urn:b"/>
  <xs:include schemaLocation="c.xsd"/>
  <xs:import namespace="urn:d"></xs:import>
</xs:schema>"#;
    assert_eq!(extract_schema_imports(xsd), vec!["a.xsd".to_string(), "b.xsd".to_string()]);
    assert!(extract_schema_imports("not xml at all <").is_empty());
}
