//! The structural guard on receipts and provenance records: each must
//! satisfy its JSON Schema before anything else looks at it.

use crate::json::{text_of, to_text, Value};
use crate::text::views;
use vstd::prelude::*;
use vstd::string::StringExecFns;
use vstd::string::StringSliceAdditionalSpecFns;
use vstd::utf8::encode_utf8;

verus! {

/// The schema of a receipt.
pub const RECEIPT_SCHEMA: &'static str =
    "{\"$schema\":\"https://json-schema.org/draft/2020-12/schema\",\"$id\":\"https://vaultmesh.dev/schema/receipt.json\",\"type\":\"object\",\"required\":[\"actor\",\"env\",\"ts\",\"subject\"],\"properties\":{\"actor\":{\"type\":\"object\",\"required\":[\"id\"],\"properties\":{\"id\":{\"type\":\"string\"}}},\"env\":{\"type\":\"object\"},\"ts\":{\"type\":\"string\",\"format\":\"date-time\"},\"subject\":{\"type\":\"object\",\"required\":[\"kind\",\"digest\"],\"properties\":{\"kind\":{\"type\":\"string\"},\"digest\":{\"type\":\"string\"}}},\"sign\":{\"type\":[\"object\",\"null\"]},\"provenance\":{\"type\":[\"object\",\"null\"]},\"provenance_ref\":{\"type\":[\"object\",\"null\"]}},\"additionalProperties\":true}";

/// The schema of a provenance record.
pub const PROVENANCE_SCHEMA: &'static str =
    "{\"$schema\":\"https://json-schema.org/draft/2020-12/schema\",\"$id\":\"https://vaultmesh.dev/schema/provenance.json\",\"type\":\"object\",\"required\":[\"artifact\",\"artifact_hash\",\"actor\",\"build\",\"ci\",\"ts\"],\"properties\":{\"artifact\":{\"type\":\"string\"},\"artifact_hash\":{\"type\":\"string\"},\"actor\":{\"type\":\"object\",\"required\":[\"id\"],\"properties\":{\"id\":{\"type\":\"string\"}}},\"build\":{\"type\":\"object\"},\"ci\":{\"type\":\"object\"},\"ts\":{\"type\":\"object\",\"required\":[\"built\"],\"properties\":{\"built\":{\"type\":\"string\",\"format\":\"date-time\"}}}},\"additionalProperties\":true}";

/// Whether the document in the bytes `instance` satisfies the schema in the
/// text `schema`, both read as JSON and the schema taken as Draft 7: what the
/// `jsonschema` crate decides.
pub uninterp spec fn draft7_accepts(schema: Seq<char>, instance: Seq<u8>) -> bool;

/// Why a document did not pass a schema.
#[derive(Debug)]
pub enum SchemaError {
    /// The schema itself could not be used.
    InvalidSchema(String),
    /// The document violates the schema.
    Violation(String),
}

impl SchemaError {
    /// The whole message.
    pub open spec fn text(&self) -> Seq<char> {
        match self {
            SchemaError::InvalidSchema(m) => m@,
            SchemaError::Violation(m) => m@,
        }
    }

    /// The whole message.
    pub fn to_string(&self) -> (s: String)
        ensures
            s@ == self.text(),
    {
        match self {
            SchemaError::InvalidSchema(m) => m.clone(),
            SchemaError::Violation(m) => m.clone(),
        }
    }
}

/// The first `n` of `parts`, with `separator` between them.
pub open spec fn joined(parts: Seq<Seq<char>>, separator: Seq<char>, n: nat) -> Seq<char>
    decreases n,
{
    if n == 0 || n > parts.len() {
        Seq::empty()
    } else if n == 1 {
        parts[0]
    } else {
        joined(parts, separator, (n - 1) as nat) + separator + parts[n - 1]
    }
}

/// The message for a document that violates the schema of a `label`.
pub open spec fn violation_text(label: Seq<char>, found: Seq<Seq<char>>) -> Seq<char> {
    label + " schema violation: "@ + joined(found, "; "@, found.len())
}

/// The message for a schema of a `label` that could not be used.
pub open spec fn invalid_schema_text(label: Seq<char>, why: Seq<char>) -> Seq<char> {
    "invalid "@ + label + " schema: "@ + why
}

/// Parses both texts with `serde_json`, compiles the schema with
/// `jsonschema::JSONSchema::options().with_draft(Draft7).compile`, and collects
/// the messages of what `validate` reports. The result is `Ok` of no message
/// exactly where the document satisfies the schema; a document that is no
/// JSON gives one message, a schema that cannot be used gives `Err`.
#[verifier::external_body]
fn draft7_check(schema: &str, instance: &[u8]) -> (r: Result<Vec<String>, String>)
    ensures
        (r is Ok && r->Ok_0@.len() == 0) == draft7_accepts(schema@, instance@),
{
    let schema: serde_json::Value = serde_json::from_str(schema).map_err(|e| e.to_string())?;
    let mut options = jsonschema::JSONSchema::options();
    let compiled = options.with_draft(jsonschema::Draft::Draft7).compile(&schema);
    let compiled = compiled.map_err(|e| e.to_string())?;
    let instance: serde_json::Value = match serde_json::from_slice(instance) {
        Ok(v) => v,
        Err(e) => return Ok(vec![e.to_string()]),
    };
    let found = match compiled.validate(&instance) {
        Ok(()) => Vec::new(),
        Err(errors) => errors.map(|e| e.to_string()).collect(),
    };
    Ok(found)
}

/// The outcome of a schema check, from what the validator found: no error for
/// no message, else the messages joined by `"; "` behind the label.
pub fn schema_verdict(label: &str, outcome: Result<Vec<String>, String>) -> (r: Result<
    (),
    SchemaError,
>)
    ensures
        match outcome {
            Ok(found) => if found@.len() == 0 {
                r is Ok
            } else {
                r is Err && r->Err_0 is Violation && r->Err_0.text() == violation_text(
                    label@,
                    views(found@),
                )
            },
            Err(why) => r is Err && r->Err_0 is InvalidSchema && r->Err_0.text()
                == invalid_schema_text(label@, why@),
        },
{
    match outcome {
        Ok(found) => {
            if found.len() == 0 {
                return Ok(());
            }
            let mut message = label.to_owned();
            message.append(" schema violation: ");
            let ghost head = message@;
            let mut i: usize = 0;
            proof {
                assert(message@ =~= head + joined(views(found@), "; "@, 0));
            }
            while i < found.len()
                invariant
                    i <= found.len(),
                    message@ == head + joined(views(found@), "; "@, i as nat),
                decreases found.len() - i,
            {
                if i > 0 {
                    message.append("; ");
                }
                message.append(found[i].as_str());
                i += 1;
                proof {
                    assert(message@ =~= head + joined(views(found@), "; "@, i as nat));
                }
            }
            Err(SchemaError::Violation(message))
        },
        Err(why) => {
            let mut message = "invalid ".to_owned();
            message.append(label);
            message.append(" schema: ");
            message.append(why.as_str());
            Err(SchemaError::InvalidSchema(message))
        },
    }
}

/// Whether the bytes hold a document that satisfies the receipt schema.
pub open spec fn is_receipt(bytes: Seq<u8>) -> bool {
    draft7_accepts(RECEIPT_SCHEMA@, bytes)
}

/// Whether the bytes hold a document that satisfies the provenance schema.
pub open spec fn is_provenance(bytes: Seq<u8>) -> bool {
    draft7_accepts(PROVENANCE_SCHEMA@, bytes)
}

/// What the error of a failed check says first: that the document violates
/// the schema, or that the schema could not be used.
pub open spec fn names_failure(error: SchemaError, violation: Seq<char>, invalid: Seq<char>) -> bool {
    match error {
        SchemaError::Violation(m) => violation.is_prefix_of(m@),
        SchemaError::InvalidSchema(m) => invalid.is_prefix_of(m@),
    }
}

/// The messages for a receipt start with the words for a receipt.
proof fn lemma_receipt_words(found: Seq<Seq<char>>, why: Seq<char>)
    ensures
        "receipt schema violation: "@.is_prefix_of(violation_text("receipt"@, found)),
        "invalid receipt schema: "@.is_prefix_of(invalid_schema_text("receipt"@, why)),
{
    reveal_strlit("receipt");
    reveal_strlit(" schema violation: ");
    reveal_strlit("receipt schema violation: ");
    reveal_strlit("invalid ");
    reveal_strlit(" schema: ");
    reveal_strlit("invalid receipt schema: ");
    let v = violation_text("receipt"@, found);
    assert(v.subrange(0, 26) =~= "receipt schema violation: "@);
    let i = invalid_schema_text("receipt"@, why);
    assert(i.subrange(0, 24) =~= "invalid receipt schema: "@);
}

/// The messages for a provenance record start with the words for one.
proof fn lemma_provenance_words(found: Seq<Seq<char>>, why: Seq<char>)
    ensures
        "provenance schema violation: "@.is_prefix_of(violation_text("provenance"@, found)),
        "invalid provenance schema: "@.is_prefix_of(invalid_schema_text("provenance"@, why)),
{
    reveal_strlit("provenance");
    reveal_strlit(" schema violation: ");
    reveal_strlit("provenance schema violation: ");
    reveal_strlit("invalid ");
    reveal_strlit(" schema: ");
    reveal_strlit("invalid provenance schema: ");
    let v = violation_text("provenance"@, found);
    assert(v.subrange(0, 29) =~= "provenance schema violation: "@);
    let i = invalid_schema_text("provenance"@, why);
    assert(i.subrange(0, 27) =~= "invalid provenance schema: "@);
}

/// Checks the document in `bytes` against the receipt schema.
pub fn validate_receipt_bytes(bytes: &[u8]) -> (r: Result<(), SchemaError>)
    ensures
        r is Ok == is_receipt(bytes@),
        r is Err ==> names_failure(
            r->Err_0,
            "receipt schema violation: "@,
            "invalid receipt schema: "@,
        ),
{
    let outcome = draft7_check(RECEIPT_SCHEMA, bytes);
    proof {
        lemma_receipt_words(views(outcome->Ok_0@), outcome->Err_0@);
    }
    schema_verdict("receipt", outcome)
}

/// Checks the document in `bytes` against the provenance schema.
pub fn validate_provenance_bytes(bytes: &[u8]) -> (r: Result<(), SchemaError>)
    ensures
        r is Ok == is_provenance(bytes@),
        r is Err ==> names_failure(
            r->Err_0,
            "provenance schema violation: "@,
            "invalid provenance schema: "@,
        ),
{
    let outcome = draft7_check(PROVENANCE_SCHEMA, bytes);
    proof {
        lemma_provenance_words(views(outcome->Ok_0@), outcome->Err_0@);
    }
    schema_verdict("provenance", outcome)
}

/// Checks `v` against the receipt schema.
pub fn validate_receipt(v: &Value) -> (r: Result<(), SchemaError>)
    ensures
        r is Ok == is_receipt(encode_utf8(text_of(v@))),
        r is Err ==> names_failure(
            r->Err_0,
            "receipt schema violation: "@,
            "invalid receipt schema: "@,
        ),
{
    let text = to_text(v);
    validate_receipt_bytes(text.as_str().as_bytes())
}

/// Checks `v` against the provenance schema.
pub fn validate_provenance(v: &Value) -> (r: Result<(), SchemaError>)
    ensures
        r is Ok == is_provenance(encode_utf8(text_of(v@))),
        r is Err ==> names_failure(
            r->Err_0,
            "provenance schema violation: "@,
            "invalid provenance schema: "@,
        ),
{
    let text = to_text(v);
    validate_provenance_bytes(text.as_str().as_bytes())
}

} // verus!
