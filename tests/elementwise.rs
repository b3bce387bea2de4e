use std::collections::HashMap;

use elementwise_serialize::{
    read_record, settle_create, write_action, write_step, CodecError, CreateOutcome, ElementwiseDeserialize,
    ElementwiseSerialize, Field, FieldKind, FieldSpec, Probe, Record, RequesterDetails, Schema,
    SchemaError, WriteAction,
};

/// A directory of field files, kept in memory: file name to content.
type Dir = HashMap<String, String>;

/// Runs a write pass of `value` into `dir`: each field is encoded, then looked
/// for, then written unless it is to be skipped.
fn write_into<T: ElementwiseSerialize>(dir: &mut Dir, value: &T) -> Result<(), CodecError> {
    let schema = value.elementwise_fields();
    for (i, spec) in schema.fields().iter().enumerate() {
        let encoded = value.elementwise_serialize(i);
        let exists = dir.contains_key(&elementwise_serialize::field::file_name(&spec.name));
        match write_step(spec, encoded, exists)? {
            WriteAction::Skip => {}
            WriteAction::Create { file_name, content } => {
                assert!(!dir.contains_key(&file_name));
                dir.insert(file_name, content);
            }
        }
    }
    Ok(())
}

fn read_from(dir: &Dir, schema: &Schema) -> Result<Record, CodecError> {
    let probes: Vec<Probe> = schema
        .fields()
        .iter()
        .map(|spec| match dir.get(&elementwise_serialize::field::file_name(&spec.name)) {
            Some(text) => Probe::Found(text.clone()),
            None => Probe::Missing,
        })
        .collect();
    read_record(schema, &probes)
}

#[derive(Debug, PartialEq)]
struct Nonce(String);

#[derive(Debug)]
struct Payload {
    requester_details: RequesterDetails,
    nonce: Option<Nonce>,
}

impl ElementwiseSerialize for Payload {
    fn elementwise_fields(&self) -> Schema {
        Payload::elementwise_schema()
    }

    fn elementwise_serialize(&self, index: usize) -> Result<String, CodecError> {
        let failure = CodecError::SerializationFailure { field: index };
        match index {
            0 => {
                let mut details = serde_json::Map::new();
                details.insert(
                    "requester_org".to_string(),
                    serde_json::Value::String(self.requester_details.requester_org.clone()),
                );
                details.insert(
                    "operator_name".to_string(),
                    serde_json::Value::String(self.requester_details.operator_name.clone()),
                );
                serde_json::to_string_pretty(&serde_json::Value::Object(details)).map_err(|_| failure)
            }
            1 => serde_json::to_string_pretty(&self.nonce.as_ref().map(|n| n.0.clone())).map_err(|_| failure),
            _ => Err(failure),
        }
    }
}

/// A value whose middle field cannot be encoded.
struct Unencodable;

impl ElementwiseSerialize for Unencodable {
    fn elementwise_fields(&self) -> Schema {
        Schema::new(vec![
            FieldSpec { name: "first".to_string(), kind: FieldKind::Required },
            FieldSpec { name: "second".to_string(), kind: FieldKind::Required },
            FieldSpec { name: "third".to_string(), kind: FieldKind::Required },
        ])
        .unwrap()
    }

    fn elementwise_serialize(&self, index: usize) -> Result<String, CodecError> {
        match index {
            1 => Err(CodecError::SerializationFailure { field: 1 }),
            _ => Ok(format!("{}", index)),
        }
    }
}

impl ElementwiseDeserialize for Payload {
    fn elementwise_schema() -> Schema {
        Schema::new(vec![
            FieldSpec { name: "requester_details".to_string(), kind: FieldKind::Required },
            FieldSpec { name: "nonce".to_string(), kind: FieldKind::Optional },
        ])
        .unwrap()
    }

    fn elementwise_deserialize(record: &Record) -> Result<Self, CodecError> {
        let details_text = record.text_of("requester_details").ok_or(CodecError::MissingRequiredField { field: 0 })?;
        let details: serde_json::Value =
            serde_json::from_str(details_text).map_err(|_| CodecError::MalformedField { field: 0 })?;
        let get = |key: &str| details.get(key).and_then(|v| v.as_str()).map(|s| s.to_string());
        let requester_details = RequesterDetails {
            requester_org: get("requester_org").ok_or(CodecError::MalformedField { field: 0 })?,
            operator_name: get("operator_name").ok_or(CodecError::MalformedField { field: 0 })?,
        };
        let nonce_text = record.text_of("nonce").ok_or(CodecError::MissingRequiredField { field: 1 })?;
        let nonce: Option<String> =
            serde_json::from_str(nonce_text).map_err(|_| CodecError::MalformedField { field: 1 })?;
        Ok(Payload { requester_details, nonce: nonce.map(Nonce) })
    }
}

fn field(name: &str, kind: FieldKind, text: &str) -> Field {
    Field { name: name.to_string(), kind, text: text.to_string() }
}

fn attestation(nonce: Option<&str>) -> Record {
    let nonce_text = match nonce {
        Some(n) => format!("\"{}\"", n),
        None => "null".to_string(),
    };
    Record::new(vec![
        field("org", FieldKind::Required, "\"Turing\""),
        field("operator", FieldKind::Required, "\"Jason\""),
        field("nonce", FieldKind::Optional, &nonce_text),
    ])
    .unwrap()
}

fn texts(record: &Record) -> Vec<(String, FieldKind, String)> {
    record.fields().iter().map(|f| (f.name.clone(), f.kind, f.text.clone())).collect()
}

#[test]
fn test_elementwise_serialize() {
    let requester_details = RequesterDetails {
        requester_org: "Turing".to_string(),
        operator_name: "Jason".to_string(),
    };
    let nonce = Some(Nonce("a36f0149".to_string()));
    let payload = Payload { requester_details, nonce };

    let mut dir = Dir::new();

    // Initially the directory is empty.
    assert!(!dir.contains_key("requester_details.json"));
    assert!(!dir.contains_key("nonce.json"));

    let result = write_into(&mut dir, &payload);
    assert!(result.is_ok());

    // After serialization the directory holds a file for each non-None field.
    assert!(dir.contains_key("requester_details.json"));
    assert!(dir.contains_key("nonce.json"));
}

#[test]
fn test_elementwise_deserialize() {
    let requester_details = RequesterDetails {
        requester_org: "Turing".to_string(),
        operator_name: "Jason".to_string(),
    };
    let nonce = Some(Nonce("a36f0149".to_string()));
    let payload = Payload { requester_details, nonce };

    let mut dir = Dir::new();
    let _ = write_into(&mut dir, &payload);

    let record = read_from(&dir, &Payload::elementwise_schema()).unwrap();
    let deserialized = Payload::elementwise_deserialize(&record).unwrap();

    assert_eq!(deserialized.requester_details.requester_org, "Turing".to_string());
    assert_eq!(deserialized.requester_details.operator_name, "Jason".to_string());
    assert_eq!(deserialized.nonce, Some(Nonce("a36f0149".to_string())));
}

#[test]
fn present_optional_fields_all_written_and_read_back() {
    let record = attestation(Some("a36f0149"));
    let mut dir = Dir::new();
    write_into(&mut dir, &record).unwrap();
    assert_eq!(dir.len(), 3);
    assert_eq!(dir["org.json"], "\"Turing\"");
    assert_eq!(dir["operator.json"], "\"Jason\"");
    assert_eq!(dir["nonce.json"], "\"a36f0149\"");
    let back = read_from(&dir, &record.schema()).unwrap();
    assert_eq!(texts(&back), texts(&record));
}

#[test]
fn absent_optional_field_not_written_and_read_as_null() {
    let record = attestation(None);
    let mut dir = Dir::new();
    write_into(&mut dir, &record).unwrap();
    assert_eq!(dir.len(), 2);
    assert!(dir.contains_key("org.json"));
    assert!(dir.contains_key("operator.json"));
    assert!(!dir.contains_key("nonce.json"));
    let back = read_from(&dir, &record.schema()).unwrap();
    assert_eq!(texts(&back), texts(&record));
    assert_eq!(back.text_of("nonce").unwrap(), "null");
}

#[test]
fn second_write_keeps_first_contents() {
    let mut dir = Dir::new();
    write_into(&mut dir, &attestation(Some("a36f0149"))).unwrap();
    let first = dir.clone();
    write_into(&mut dir, &attestation(Some("a36f0149"))).unwrap();
    assert_eq!(dir, first);
    // A record with other values does not replace the files either.
    write_into(&mut dir, &attestation(Some("ffff0000"))).unwrap();
    assert_eq!(dir, first);
}

#[test]
fn existing_file_is_skipped() {
    let record = attestation(Some("a36f0149"));
    let org = &record.fields()[0];
    match write_action(org, true) {
        WriteAction::Skip => {}
        other => panic!("expected a skip, got {:?}", other),
    }
    match write_action(org, false) {
        WriteAction::Create { file_name, content } => {
            assert_eq!(file_name, "org.json");
            assert_eq!(content, "\"Turing\"");
        }
        other => panic!("expected a create, got {:?}", other),
    }
}

#[test]
fn required_null_field_is_written() {
    let f = field("count", FieldKind::Required, "null");
    match write_action(&f, false) {
        WriteAction::Create { file_name, content } => {
            assert_eq!(file_name, "count.json");
            assert_eq!(content, "null");
        }
        other => panic!("expected a create, got {:?}", other),
    }
    let g = field("count", FieldKind::Optional, "null");
    assert!(matches!(write_action(&g, false), WriteAction::Skip));
}

#[test]
fn missing_required_field_fails_the_read() {
    let record = attestation(Some("a36f0149"));
    let mut dir = Dir::new();
    write_into(&mut dir, &record).unwrap();
    dir.remove("operator.json");
    let r = read_from(&dir, &record.schema());
    assert_eq!(r.err(), Some(CodecError::MissingRequiredField { field: 1 }));
}

#[test]
fn first_failing_field_is_reported() {
    let schema = attestation(None).schema();
    let probes = vec![Probe::Found("\"Turing\"".to_string()), Probe::Unreadable, Probe::Missing];
    assert_eq!(read_record(&schema, &probes).err(), Some(CodecError::IoFailure { field: 1 }));
    let probes = vec![Probe::Missing, Probe::Unreadable, Probe::Missing];
    assert_eq!(read_record(&schema, &probes).err(), Some(CodecError::MissingRequiredField { field: 0 }));
}

#[test]
fn file_holding_null_reads_as_null() {
    let schema = attestation(None).schema();
    let probes = vec![
        Probe::Found("\"Turing\"".to_string()),
        Probe::Found("\"Jason\"".to_string()),
        Probe::Found("null".to_string()),
    ];
    let record = read_record(&schema, &probes).unwrap();
    assert_eq!(texts(&record), texts(&attestation(None)));
}

#[test]
fn create_conflict_counts_as_persisted() {
    assert_eq!(settle_create(2, CreateOutcome::Created), Ok(()));
    assert_eq!(settle_create(2, CreateOutcome::AlreadyExists), Ok(()));
    assert_eq!(settle_create(2, CreateOutcome::Failed), Err(CodecError::IoFailure { field: 2 }));
}

#[test]
fn bad_names_are_rejected() {
    let r = Record::new(vec![field("a", FieldKind::Required, "1"), field("", FieldKind::Required, "2")]);
    assert_eq!(r.err(), Some(SchemaError::EmptyName { field: 1 }));
    let r = Schema::new(vec![
        FieldSpec { name: "a".to_string(), kind: FieldKind::Required },
        FieldSpec { name: "b".to_string(), kind: FieldKind::Optional },
        FieldSpec { name: "a".to_string(), kind: FieldKind::Optional },
    ]);
    assert_eq!(r.err(), Some(SchemaError::DuplicateName { field: 2 }));
    assert!(Schema::new(vec![]).is_ok());
}

#[test]
fn file_name_appends_json() {
    assert_eq!(elementwise_serialize::field::file_name("nonce"), "nonce.json");
}

#[test]
fn requester_details_round_trip() {
    let details = RequesterDetails { requester_org: "Turing".to_string(), operator_name: "Jason".to_string() };
    assert_eq!(details.elementwise_serialize(0), Ok("\"Turing\"".to_string()));
    assert_eq!(details.elementwise_serialize(1), Ok("\"Jason\"".to_string()));
    assert_eq!(details.elementwise_serialize(2), Err(CodecError::SerializationFailure { field: 2 }));
    let mut dir = Dir::new();
    write_into(&mut dir, &details).unwrap();
    assert_eq!(dir["requester_org.json"], "\"Turing\"");
    assert_eq!(dir["operator_name.json"], "\"Jason\"");
    let back = read_from(&dir, &RequesterDetails::elementwise_schema()).unwrap();
    assert_eq!(RequesterDetails::elementwise_deserialize(&back).unwrap(), details);
}

#[test]
fn requester_details_escapes_strings() {
    let details = RequesterDetails { requester_org: "a\"b\\c\n\u{1}\u{1f}".to_string(), operator_name: "Türing".to_string() };
    assert_eq!(details.elementwise_serialize(0), Ok("\"a\\\"b\\\\c\\n\\u0001\\u001f\"".to_string()));
    assert_eq!(details.elementwise_serialize(1), Ok("\"Türing\"".to_string()));
}

#[test]
fn encoding_failure_stops_the_pass() {
    let mut dir = Dir::new();
    assert_eq!(write_into(&mut dir, &Unencodable), Err(CodecError::SerializationFailure { field: 1 }));
    assert_eq!(dir.len(), 1);
    assert_eq!(dir["first.json"], "0");
    assert!(!dir.contains_key("third.json"));
}

#[test]
fn requester_details_decode_errors() {
    let record = Record::new(vec![
        field("requester_org", FieldKind::Required, "\"Turing\""),
        field("operator_name", FieldKind::Required, "42"),
    ])
    .unwrap();
    assert_eq!(
        RequesterDetails::elementwise_deserialize(&record).err(),
        Some(CodecError::MalformedField { field: 1 })
    );
    let record = Record::new(vec![field("operator_name", FieldKind::Required, "\"Jason\"")]).unwrap();
    assert_eq!(
        RequesterDetails::elementwise_deserialize(&record).err(),
        Some(CodecError::MissingRequiredField { field: 0 })
    );
    let record = Record::new(vec![
        field("requester_org", FieldKind::Required, "\"T\\u00fcring\""),
        field("operator_name", FieldKind::Required, "\"Jason\""),
    ])
    .unwrap();
    assert_eq!(RequesterDetails::elementwise_deserialize(&record).unwrap().requester_org, "Türing");
}
