# broquest

The core of an HTTP API client, written in Verus: requests and their
authentication, cURL commands, environment variables and placeholders,
collection files (TOML request files and OpenCollection YAML documents),
importers for OpenAPI and WSDL descriptions, and the decisions around sending
a request (query strings, authentication headers, token expiry, digest
challenges, response formatting).

## Layout

- `src/` — the verified library.
  - `text`, `encoding`, `json`, `data`: texts, percent-encoding and Base64,
    JSON literals, and document values (what a YAML or JSON document holds).
  - `domain`: requests, responses, methods, content types, authentication.
  - `curl`, `curl_roundtrip`: reading and writing cURL commands, and the law
    that a written command reads back as its request.
  - `vars`, `resolver`: variable maps and `{{placeholder}}` resolution.
  - `collection_types`: TOML collection and request files.
  - `opencollection`, `oc_merge`, `oc_env`, `oc_collection`, `oc_laws`:
    OpenCollection documents — reading items into requests, writing requests
    back into the items they came from without losing what the library does
    not model, environments, whole collections, and the laws that tie
    writing and reading together.
  - `import`, `openapi`: OpenAPI and WSDL imports; reading OpenAPI
    documents and drawing sample request bodies from their schemas.
  - `collection_tree`: the collections tree of the side panel, sorted by
    name, with its node ids.
  - `client`, `digest`, `tokens`, `history`, `format`, `app_state`: sending
    requests, digest authentication, OAuth2 and JWT tokens, history labels,
    collection formats, settings.
- `tests/` — tests of the library.
- `app/` — a command-line front end: file and network I/O and serde forms of
  the documents.
