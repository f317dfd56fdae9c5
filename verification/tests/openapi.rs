use broquest::import::{OpenAPIImporter, ParameterLocation};
use broquest::openapi::{last_segment_of, parse_openapi, sample_json, SchemaKind, SchemaModel};

const PETSTORE: &str = r##"{
  "openapi": "3.1.0",
  "info": { "title": "Swagger Petstore", "version": "1.0.0" },
  "servers": [ { "url": "http://petstore.swagger.io/v1" } ],
  "paths": {
    "/pets": {
      "get": {
        "operationId": "listPets",
        "tags": ["pets"],
        "parameters": [
          { "name": "limit", "in": "query", "required": false, "schema": { "type": "integer" } }
        ],
        "responses": { "200": { "description": "A paged array of pets" } }
      },
      "post": {
        "operationId": "createPets",
        "tags": ["pets"],
        "requestBody": {
          "content": { "application/json": { "schema": { "$ref": "#/components/schemas/Pet" } } },
          "required": true
        },
        "responses": { "201": { "description": "Null response" } }
      }
    },
    "/pets/{petId}": {
      "get": {
        "operationId": "showPetById",
        "tags": ["pets"],
        "parameters": [
          { "name": "petId", "in": "path", "required": true, "schema": { "type": "string" } }
        ],
        "responses": { "200": { "description": "Expected response to a valid request" } }
      }
    }
  },
  "components": {
    "schemas": {
      "Pet": {
        "type": "object",
        "required": ["id", "name"],
        "properties": {
          "id": { "type": "integer", "format": "int64" },
          "name": { "type": "string" },
          "tag": { "type": "string" },
          "createdAt": { "type": "string", "format": "date-time" }
        }
      },
      "Pets": { "type": "array", "items": { "$ref": "#/components/schemas/Pet" } },
      "Error": {
        "type": "object",
        "properties": { "code": { "type": "integer" }, "message": { "type": "string" } }
      }
    }
  }
}"##;

const PET_SAMPLE: &str = "{\n  \"id\": 0,\n  \"name\": \"string\",\n  \"tag\": \"string\",\n  \"createdAt\": \"2024-01-01T00:00:00Z\"\n}";

#[test]
fn petstore_document_is_read() {
    let doc = parse_openapi(PETSTORE, true).expect("petstore parses");
    assert_eq!(doc.servers, vec!["http://petstore.swagger.io/v1".to_string()]);
    assert_eq!(doc.operations.len(), 3);
    assert_eq!(doc.operations[0].path, "/pets");
    assert_eq!(doc.operations[0].method, "GET");
    assert_eq!(doc.operations[1].method, "POST");
    assert_eq!(doc.operations[2].path, "/pets/{petId}");
    let schemas = doc.schemas.as_ref().expect("components");
    let names: Vec<&str> = schemas.iter().map(|(n, _)| n.as_str()).collect();
    assert_eq!(names, vec!["Pet", "Pets", "Error"]);
    match &schemas[0].1 {
        SchemaModel::Inline { kind, properties, .. } => {
            assert_eq!(*kind, SchemaKind::Object);
            let props: Vec<&str> = properties.iter().map(|(n, _)| n.as_str()).collect();
            assert_eq!(props, vec!["id", "name", "tag", "createdAt"]);
        }
        other => panic!("Pet is not inline: {:?}", other),
    }
}

#[test]
fn petstore_sample_of_pet() {
    let doc = parse_openapi(PETSTORE, true).unwrap();
    let pet = SchemaModel::Ref("#/components/schemas/Pet".to_string());
    assert_eq!(sample_json(&pet, &doc.schemas, 64), Some(PET_SAMPLE.to_string()));
    let pets = SchemaModel::Ref("#/components/schemas/Pets".to_string());
    // A named schema stands for the object of its properties; `Pets` has none.
    assert_eq!(sample_json(&pets, &doc.schemas, 64), Some("{}".to_string()));
}

#[test]
fn petstore_import_uses_the_samples() {
    let importer = OpenAPIImporter::from_text(PETSTORE, true).expect("imports");
    let result = importer.import();
    assert_eq!(result.environment.name, "Default");
    assert_eq!(result.groups.len(), 1);
    let (tag, requests) = &result.groups[0];
    assert_eq!(tag, "pets");
    assert_eq!(requests.len(), 3);
    assert_eq!(requests[0].name, "listPets");
    assert_eq!(requests[0].query_params[0].key, "limit");
    assert_eq!(requests[1].name, "createPets");
    assert_eq!(requests[1].body, PET_SAMPLE);
    assert_eq!(requests[2].url, "{{baseUrl}}/pets/:petId");
    assert_eq!(requests[2].path_params[0].key, "petId");
}

#[test]
fn yaml_documents_are_read_too() {
    let yaml = "openapi: 3.1.0\ninfo:\n  title: t\n  version: '1'\npaths:\n  /a:\n    delete:\n      parameters:\n        - name: X-Key\n          in: header\n      responses: {}\n";
    let doc = parse_openapi(yaml, false).expect("yaml parses");
    assert_eq!(doc.operations.len(), 1);
    assert_eq!(doc.operations[0].method, "DELETE");
    match &doc.operations[0].parameters[0] {
        Some(p) => {
            assert_eq!(p.name, "X-Key");
            assert_eq!(p.location, ParameterLocation::Header);
        }
        None => panic!("parameter not resolved"),
    }
    assert!(doc.schemas.is_none());
    assert!(OpenAPIImporter::from_text("not a document", true).is_none());
}

fn inline(kind: SchemaKind, format: Option<&str>, properties: Vec<(&str, SchemaModel)>, items: Option<SchemaModel>) -> SchemaModel {
    SchemaModel::Inline {
        kind,
        format: format.map(|f| f.to_string()),
        properties: properties.into_iter().map(|(k, v)| (k.to_string(), v)).collect(),
        items: items.map(Box::new),
    }
}

#[test]
fn samples_by_type() {
    let none: Option<Vec<(String, SchemaModel)>> = None;
    assert_eq!(sample_json(&inline(SchemaKind::Number, None, vec![], None), &none, 8), Some("0.0".to_string()));
    assert_eq!(sample_json(&inline(SchemaKind::Integer, None, vec![], None), &none, 8), Some("0".to_string()));
    assert_eq!(sample_json(&inline(SchemaKind::Boolean, None, vec![], None), &none, 8), Some("true".to_string()));
    assert_eq!(sample_json(&inline(SchemaKind::Null, None, vec![], None), &none, 8), Some("null".to_string()));
    assert_eq!(sample_json(&inline(SchemaKind::Several, None, vec![], None), &none, 8), Some("null".to_string()));
    assert_eq!(sample_json(&inline(SchemaKind::Untyped, None, vec![], None), &none, 8), Some("{}".to_string()));
    assert_eq!(sample_json(&SchemaModel::Boolean, &none, 8), Some("{}".to_string()));
    assert_eq!(
        sample_json(&inline(SchemaKind::String, Some("email"), vec![], None), &none, 8),
        Some("\"example@example.com\"".to_string())
    );
    assert_eq!(sample_json(&inline(SchemaKind::String, Some("int64"), vec![], None), &none, 8), Some("\"string\"".to_string()));
    assert_eq!(sample_json(&inline(SchemaKind::Array, None, vec![], None), &none, 8), Some("[]".to_string()));
    assert_eq!(
        sample_json(&inline(SchemaKind::Array, None, vec![], Some(SchemaModel::Boolean)), &none, 8),
        Some("[]".to_string())
    );
    let nested = inline(
        SchemaKind::Object,
        None,
        vec![(
            "tags",
            inline(SchemaKind::Array, None, vec![], Some(inline(SchemaKind::Object, None, vec![("k\"", inline(SchemaKind::Integer, None, vec![], None))], None))),
        )],
        None,
    );
    assert_eq!(
        sample_json(&nested, &none, 8),
        Some("{\n  \"tags\": [\n    {\n      \"k\\\"\": 0\n    }\n  ]\n}".to_string())
    );
}

#[test]
fn unresolved_or_cyclic_references_give_no_sample() {
    let none: Option<Vec<(String, SchemaModel)>> = None;
    let r = SchemaModel::Ref("#/components/schemas/A".to_string());
    assert_eq!(sample_json(&r, &none, 8), None);
    let comps = Some(vec![("A".to_string(), SchemaModel::Ref("#/components/schemas/A".to_string()))]);
    assert_eq!(sample_json(&r, &comps, 8), None);
    let comps = Some(vec![("B".to_string(), SchemaModel::Boolean)]);
    assert_eq!(sample_json(&SchemaModel::Ref("B".to_string()), &comps, 8), None);
    let deep = inline(SchemaKind::Array, None, vec![], Some(inline(SchemaKind::Integer, None, vec![], None)));
    assert_eq!(sample_json(&deep, &none, 1), None);
    assert_eq!(sample_json(&deep, &none, 2), Some("[\n  0\n]".to_string()));
}

#[test]
fn reference_names_are_the_last_segment() {
    assert_eq!(last_segment_of("#/components/schemas/Pet").iter().collect::<String>(), "Pet");
    assert_eq!(last_segment_of("Pet").iter().collect::<String>(), "Pet");
    assert_eq!(last_segment_of("a/").iter().collect::<String>(), "");
}
