//! The response decoder: a strict, all-or-nothing check of parsed model
//! output against the schema contract. A failure carries the raw text and a
//! diagnostic so the offending payload can be inspected.
use vstd::prelude::*;
use vstd::string::*;

use crate::jsonrep::{parse_json, parsed_json, JsonValue};
use crate::schema::{OutputJson, SourceFile};
use crate::strutil::str_eq;

verus! {

/// The first binding of `key` among `fields`, if any.
pub open spec fn lookup(fields: Seq<(String, JsonValue)>, key: Seq<char>) -> Option<JsonValue>
    decreases fields.len(),
{
    if fields.len() == 0 {
        None
    } else if fields[0].0@ == key {
        Some(fields[0].1)
    } else {
        lookup(fields.drop_first(), key)
    }
}

/// The text of field `key` of `v`, when `v` is an object and that field is a
/// string.
pub open spec fn str_field(v: JsonValue, key: Seq<char>) -> Option<Seq<char>> {
    match v {
        JsonValue::Object(fields) => match lookup(fields@, key) {
            Some(f) => match f {
                JsonValue::Text(s) => Some(s@),
                _ => None,
            },
            None => None,
        },
        _ => None,
    }
}

/// The value of the advisory `joke` field, if present.
pub open spec fn joke_field(v: JsonValue) -> Option<JsonValue> {
    match v {
        JsonValue::Object(fields) => lookup(fields@, "joke"@),
        _ => None,
    }
}

/// The `joke` field may be absent; when present it must be a string.
pub open spec fn joke_ok(v: JsonValue) -> bool {
    match joke_field(v) {
        None => true,
        Some(j) => j is Text,
    }
}

/// The elements of the `source_files` field, when `v` is an object and that
/// field is an array.
pub open spec fn entries_field(v: JsonValue) -> Option<Seq<JsonValue>> {
    match v {
        JsonValue::Object(fields) => match lookup(fields@, "source_files"@) {
            Some(f) => match f {
                JsonValue::Array(a) => Some(a@),
                _ => None,
            },
            None => None,
        },
        _ => None,
    }
}

/// A valid source-file entry: an object with a non-empty string `name` and a
/// string `contents`.
pub open spec fn is_entry(e: JsonValue) -> bool {
    match str_field(e, "name"@) {
        Some(n) => n.len() > 0 && str_field(e, "contents"@) is Some,
        None => false,
    }
}

/// The whole schema contract: the three required string fields, a well-shaped
/// optional joke, and a `source_files` array of valid entries.
pub open spec fn is_valid_document(v: JsonValue) -> bool {
    &&& str_field(v, "dockerfile"@) is Some
    &&& str_field(v, "makefile"@) is Some
    &&& str_field(v, "readme"@) is Some
    &&& joke_ok(v)
    &&& match entries_field(v) {
        Some(es) => forall|i: int| 0 <= i < es.len() ==> is_entry(#[trigger] es[i]),
        None => false,
    }
}

/// The decoded document `d` carries exactly the contents of the parsed value
/// `v`, field for field and entry for entry, in order.
pub open spec fn document_matches(d: OutputJson, v: JsonValue) -> bool {
    &&& str_field(v, "dockerfile"@) == Some(d.dockerfile@)
    &&& str_field(v, "makefile"@) == Some(d.makefile@)
    &&& str_field(v, "readme"@) == Some(d.readme@)
    &&& match joke_field(v) {
        Some(j) => match j {
            JsonValue::Text(s) => d.joke matches Some(t) && t@ == s@,
            _ => false,
        },
        None => d.joke is None,
    }
    &&& match entries_field(v) {
        Some(es) => d.source_files@.len() == es.len() && forall|i: int|
            0 <= i < es.len() ==> str_field(#[trigger] es[i], "name"@) == Some(
                d.source_files@[i].name@,
            ) && str_field(es[i], "contents"@) == Some(d.source_files@[i].contents@),
        None => false,
    }
}

/// A decode failure: the raw model output together with the parse or shape
/// diagnostic, kept for operator inspection.
#[derive(Debug)]
pub struct DecodeError {
    pub raw: String,
    pub diagnostic: String,
}

/// Finds `key` among `fields`, comparing character for character.
fn get_field<'a>(fields: &'a Vec<(String, JsonValue)>, key: &str) -> (r: Option<&'a JsonValue>)
    ensures
        match r {
            Some(f) => lookup(fields@, key@) == Some(*f),
            None => lookup(fields@, key@) is None,
        },
{
    let mut i: usize = 0;
    proof {
        assert(fields@.subrange(0, fields@.len() as int) =~= fields@);
    }
    while i < fields.len()
        invariant
            0 <= i <= fields@.len(),
            lookup(fields@, key@) == lookup(
                fields@.subrange(i as int, fields@.len() as int),
                key@,
            ),
        decreases fields@.len() - i,
    {
        let pair = &fields[i];
        proof {
            assert(fields@.subrange(i as int, fields@.len() as int)[0] == fields@[i as int]);
        }
        if str_eq(pair.0.as_str(), key) {
            return Some(&pair.1);
        }
        proof {
            assert(fields@.subrange(i as int, fields@.len() as int).drop_first()
                =~= fields@.subrange(i + 1, fields@.len() as int));
        }
        i += 1;
    }
    None
}

/// Builds a document from a parsed value, all-or-nothing: the result is `Ok`
/// exactly when the value meets the schema contract, and then carries its
/// contents verbatim; otherwise the diagnostic is a non-empty message naming
/// the offending part.
pub fn build_document(v: &JsonValue) -> (r: Result<OutputJson, String>)
    ensures
        match r {
            Ok(d) => is_valid_document(*v) && document_matches(d, *v) && d.wf(),
            Err(m) => !is_valid_document(*v) && m@.len() > 0,
        },
{
    match v {
        JsonValue::Object(fields) => {
            let dockerfile: String = match get_field(fields, "dockerfile") {
                Some(JsonValue::Text(s)) => s.clone(),
                _ => {
                    proof {
                        reveal_strlit("missing or non-string field: dockerfile");
                    }
                    return Err(String::from_str("missing or non-string field: dockerfile"));
                },
            };
            let makefile: String = match get_field(fields, "makefile") {
                Some(JsonValue::Text(s)) => s.clone(),
                _ => {
                    proof {
                        reveal_strlit("missing or non-string field: makefile");
                    }
                    return Err(String::from_str("missing or non-string field: makefile"));
                },
            };
            let readme: String = match get_field(fields, "readme") {
                Some(JsonValue::Text(s)) => s.clone(),
                _ => {
                    proof {
                        reveal_strlit("missing or non-string field: readme");
                    }
                    return Err(String::from_str("missing or non-string field: readme"));
                },
            };
            let joke: Option<String> = match get_field(fields, "joke") {
                Some(JsonValue::Text(s)) => Some(s.clone()),
                None => None,
                Some(_) => {
                    proof {
                        reveal_strlit("non-string field: joke");
                    }
                    return Err(String::from_str("non-string field: joke"));
                },
            };
            let items: &Vec<JsonValue> = match get_field(fields, "source_files") {
                Some(JsonValue::Array(a)) => a,
                _ => {
                    proof {
                        reveal_strlit("missing or non-array field: source_files");
                    }
                    return Err(String::from_str("missing or non-array field: source_files"));
                },
            };
            proof {
                assert(entries_field(*v) == Some(items@));
            }
            let mut out: Vec<SourceFile> = Vec::new();
            let mut i: usize = 0;
            while i < items.len()
                invariant
                    0 <= i <= items@.len(),
                    out@.len() == i,
                    entries_field(*v) == Some(items@),
                    forall|j: int| 0 <= j < i ==> is_entry(#[trigger] items@[j]),
                    forall|j: int|
                        0 <= j < i ==> str_field(#[trigger] items@[j], "name"@) == Some(
                            out@[j].name@,
                        ) && str_field(items@[j], "contents"@) == Some(out@[j].contents@)
                            && out@[j].name@.len() > 0,
                decreases items@.len() - i,
            {
                let e = &items[i];
                match e {
                    JsonValue::Object(efields) => {
                        let name: String = match get_field(efields, "name") {
                            Some(JsonValue::Text(s)) => s.clone(),
                            _ => {
                                proof {
                                    reveal_strlit("source file entry lacks a string field: name");
                                    assert(str_field(items@[i as int], "name"@) is None);
                                    assert(!is_entry(entries_field(*v).unwrap()[i as int]));
                                }
                                return Err(
                                    String::from_str(
                                        "source file entry lacks a string field: name",
                                    ),
                                );
                            },
                        };
                        if name.as_str().is_empty() {
                            proof {
                                reveal_strlit("source file entry has an empty name");
                                assert(!is_entry(entries_field(*v).unwrap()[i as int]));
                            }
                            return Err(String::from_str("source file entry has an empty name"));
                        }
                        let contents: String = match get_field(efields, "contents") {
                            Some(JsonValue::Text(s)) => s.clone(),
                            _ => {
                                proof {
                                    reveal_strlit(
                                        "source file entry lacks a string field: contents",
                                    );
                                    assert(str_field(items@[i as int], "contents"@) is None);
                                    assert(!is_entry(entries_field(*v).unwrap()[i as int]));
                                }
                                return Err(
                                    String::from_str(
                                        "source file entry lacks a string field: contents",
                                    ),
                                );
                            },
                        };
                        out.push(SourceFile { name, contents });
                    },
                    _ => {
                        proof {
                            reveal_strlit("source file entry is not an object");
                            assert(!is_entry(entries_field(*v).unwrap()[i as int]));
                        }
                        return Err(String::from_str("source file entry is not an object"));
                    },
                }
                i += 1;
            }
            proof {
                assert(str_field(*v, "dockerfile"@) == Some(dockerfile@));
                assert(str_field(*v, "makefile"@) == Some(makefile@));
                assert(str_field(*v, "readme"@) == Some(readme@));
                assert(joke_ok(*v));
                assert forall|j: int| 0 <= j < out@.len() implies (#[trigger] out@[j]).wf() by {
                    assert(str_field(items@[j], "name"@) == Some(out@[j].name@));
                }
                assert(is_valid_document(*v));
            }
            Ok(OutputJson { dockerfile, makefile, readme, joke, source_files: out })
        },
        _ => {
            proof {
                reveal_strlit("response is not a JSON object");
            }
            Err(String::from_str("response is not a JSON object"))
        },
    }
}

/// Decodes raw model output. `Ok` exactly when the text parses as JSON and
/// meets the schema contract; any failure carries the raw text, a parse
/// failure carries the parser's own diagnostic, and a shape failure carries a
/// non-empty message naming the offending part.
pub fn decode(raw: &str) -> (r: Result<OutputJson, DecodeError>)
    ensures
        match r {
            Ok(d) => {
                &&& parsed_json(raw@) matches Ok(v) && is_valid_document(v) && document_matches(
                    d,
                    v,
                )
                &&& d.wf()
            },
            Err(e) => {
                &&& e.raw@ == raw@
                &&& match parsed_json(raw@) {
                    Ok(v) => !is_valid_document(v) && e.diagnostic@.len() > 0,
                    Err(m) => e.diagnostic@ == m,
                }
            },
        },
{
    match parse_json(raw) {
        Ok(v) => match build_document(&v) {
            Ok(d) => Ok(d),
            Err(m) => Err(DecodeError { raw: raw.to_owned(), diagnostic: m }),
        },
        Err(m) => Err(DecodeError { raw: raw.to_owned(), diagnostic: m }),
    }
}

/// Law: decoding is all-or-nothing. A parsed value that lacks any required
/// field of the schema contract, or whose field has the wrong shape, is not a
/// valid document, so no partial `OutputJson` is ever produced from it.
pub proof fn lemma_decode_all_or_nothing(v: JsonValue)
    requires
        str_field(v, "dockerfile"@) is None || str_field(v, "makefile"@) is None || str_field(
            v,
            "readme"@,
        ) is None || entries_field(v) is None || !joke_ok(v),
    ensures
        !is_valid_document(v),
{
}

} // verus!
