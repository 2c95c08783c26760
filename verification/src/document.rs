use vstd::prelude::*;
use vstd::utf8::{decode_utf8, encode_utf8, valid_utf8};
use serde_json::Value;
use crate::config::{
    axis_view, rule_views, ConfigView, Multiplier, RuleView, WeightConfig, WeightRule,
    DEFAULT_BASE_POPULATION,
};
use crate::decimal::multiplier_of;
use crate::error::Error;

verus! {

/// What a document in JSON or Hjson writes.
#[derive(Debug)]
pub enum Document {
    Null,
    Bool(bool),
    /// A number: as an integer where it is one that fits in 64 bits with a
    /// sign, and by the text that it is written with.
    Number { integer: Option<i64>, text: Vec<u8> },
    Text(String),
    List(Vec<Document>),
    /// An object, by its members in their order.
    Object(Vec<(String, Document)>),
}

/// The most opening brackets and braces that the text of a document may
/// hold. A document cannot be nested deeper than it has openings, and the
/// reader needs room for each level of nesting, so that a text with more is
/// not handed to it.
pub const MAX_OPENINGS: usize = 128;

/// Whether a byte opens a list or an object: `[` or `{`.
pub open spec fn is_opening(b: u8) -> bool {
    b == 91 || b == 123
}

/// How many opening brackets and braces `bytes` hold.
pub open spec fn openings(bytes: Seq<u8>) -> nat
    decreases bytes.len(),
{
    if bytes.len() == 0 {
        0
    } else if is_opening(bytes.last()) {
        openings(bytes.drop_last()) + 1
    } else {
        openings(bytes.drop_last())
    }
}

/// Whether a text holds few enough openings to be handed to the reader.
pub open spec fn readable(text: Seq<char>) -> bool {
    openings(encode_utf8(text)) <= MAX_OPENINGS
}

/// `serde_json::Value`, a parsed document as `serde_json` keeps it. Nothing
/// is known of what one holds but through `value_document`.
#[verifier::external_type_specification]
#[verifier::external_body]
pub struct ExValue(Value);

/// What a value holds, as a document: a number by what `as_i64` and
/// `Display` give for it, an object by the members that its map hands out,
/// in the order in which it hands them out.
pub uninterp spec fn value_document(v: Value) -> Document;

/// The document that a text in Hjson writes, where it writes one.
pub uninterp spec fn hjson_document(text: Seq<char>) -> Option<Document>;

/// Reads bytes as text through `std::str::from_utf8`: the text that the
/// bytes encode in UTF-8, and nothing where they encode none.
#[verifier::external_body]
fn read_utf8(bytes: &[u8]) -> (r: Option<&str>)
    ensures
        valid_utf8(bytes@) ==> r is Some,
        r matches Some(text) ==> valid_utf8(bytes@) && text@ == decode_utf8(bytes@),
{
    std::str::from_utf8(bytes).ok()
}

/// Reads a text through `serde_hjson::from_str`, as a `serde_json::Value`.
/// The result is nothing where that function reports an error.
///
/// That function calls itself once for each level of nesting and keeps no
/// count of the levels, so that it is called on texts of bounded nesting
/// only.
#[verifier::external_body]
fn read_hjson(text: &str) -> (r: Option<Value>)
    requires
        readable(text@),
    ensures
        r matches Some(v) ==> hjson_document(text@) == Some(value_document(v)),
        r is None ==> hjson_document(text@) is None,
{
    serde_hjson::from_str::<Value>(text).ok()
}

/// Copies a `serde_json::Value` into a document, variant by variant. Of a
/// number it copies what `serde_json::Number::as_i64` and the number's
/// `Display` give, of an object the members that the iterator of
/// `serde_json::Map` hands out.
#[verifier::external_body]
fn document_of(v: &Value) -> (d: Document)
    ensures
        d == value_document(*v),
{
    match v {
        Value::Null => Document::Null,
        Value::Bool(b) => Document::Bool(*b),
        Value::Number(n) => Document::Number {
            integer: n.as_i64(),
            text: n.to_string().into_bytes(),
        },
        Value::String(s) => Document::Text(s.clone()),
        Value::Array(a) => Document::List(a.iter().map(document_of).collect()),
        Value::Object(o) => Document::Object(
            o.iter().map(|(k, x)| (k.clone(), document_of(x))).collect(),
        ),
    }
}

/// The first of `members` under `key`.
pub open spec fn find_member(members: Seq<(String, Document)>, key: Seq<char>) -> Option<Document>
    decreases members.len(),
{
    if members.len() == 0 {
        None
    } else if members[0].0@ == key {
        Some(members[0].1)
    } else {
        find_member(members.skip(1), key)
    }
}

/// The member of an object under `key`: nothing where the document is no
/// object or has no such member.
pub open spec fn member_of(doc: Document, key: Seq<char>) -> Option<Document> {
    match doc {
        Document::Object(members) => find_member(members@, key),
        _ => None,
    }
}

/// The rule that a member of an axis writes: its key, and its value as a
/// multiplier. Nothing where the value is no number or no multiplier.
pub open spec fn member_rule(member: (String, Document)) -> Option<RuleView> {
    match member.1 {
        Document::Number { integer, text } => match multiplier_of(text@) {
            Some(m) => Some(RuleView { key: member.0@, millionths: m }),
            None => None,
        },
        _ => None,
    }
}

/// The rules that the members of an axis write, where each writes one.
pub open spec fn members_rules(members: Seq<(String, Document)>) -> Option<Seq<RuleView>> {
    if forall|i: int| 0 <= i < members.len() ==> (#[trigger] member_rule(members[i])) is Some {
        Some(Seq::new(members.len(), |i: int| member_rule(members[i])->0))
    } else {
        None
    }
}

/// One axis of a document. The axis is absent where the document has no such
/// member and where the member is no object. Where it is an object, each of
/// its members has to write a rule: otherwise the document is refused, which
/// the outer `None` stands for.
pub open spec fn document_axis(doc: Document, key: Seq<char>) -> Option<Option<Seq<RuleView>>> {
    match member_of(doc, key) {
        Some(Document::Object(members)) => match members_rules(members@) {
            Some(rules) => Some(Some(rules)),
            None => None,
        },
        _ => Some(None),
    }
}

/// The population threshold of a document: the default where the document
/// names none, and nothing where what it names is no integer.
pub open spec fn document_base(doc: Document) -> Option<i64> {
    match member_of(doc, "base_population"@) {
        None => Some(DEFAULT_BASE_POPULATION),
        Some(Document::Number { integer, text }) => integer,
        Some(_) => None,
    }
}

/// The weighting that a document writes, where it writes one: its threshold
/// is an integer, the members of its axes are positive multipliers, and no
/// axis names a key twice.
pub open spec fn document_config(doc: Document) -> Option<ConfigView> {
    match (document_base(doc), document_axis(doc, "country"@), document_axis(doc, "city"@)) {
        (Some(base), Some(country), Some(city)) => {
            let cfg = ConfigView {
                base_population: base as int,
                country_weights: country,
                city_weights: city,
            };
            if cfg.wf() {
                Some(cfg)
            } else {
                None
            }
        },
        _ => None,
    }
}

/// The weighting that a text writes, where it writes one: the text holds no
/// more openings than a document may, it is Hjson, and the document that it
/// writes is a weighting.
pub open spec fn text_config(text: Seq<char>) -> Option<ConfigView> {
    if !readable(text) {
        None
    } else {
        match hjson_document(text) {
            Some(doc) => document_config(doc),
            None => None,
        }
    }
}

/// The weighting that the body of a fetched document writes, where it writes
/// one: the body is text in UTF-8, and the text writes a weighting.
pub open spec fn body_config(body: Seq<u8>) -> Option<ConfigView> {
    if valid_utf8(body) {
        text_config(decode_utf8(body))
    } else {
        None
    }
}

impl Document {
    /// The member of an object under `key`, the first where there are several.
    pub fn member(&self, key: &str) -> (r: Option<&Document>)
        ensures
            match member_of(*self, key@) {
                Some(m) => r matches Some(found) && *found == m,
                None => r is None,
            },
    {
        match self {
            Document::Object(members) => {
                let wanted: String = key.to_owned();
                let mut i: usize = 0;
                proof {
                    assert(members@.skip(0) == members@);
                }
                while i < members.len()
                    invariant
                        i <= members.len(),
                        wanted@ == key@,
                        member_of(*self, key@) == find_member(members@.skip(i as int), key@),
                    decreases members.len() - i,
                {
                    proof {
                        assert(members@.skip(i as int)[0] == members@[i as int]);
                        assert(members@.skip(i as int).skip(1) == members@.skip(i + 1));
                    }
                    if members[i].0 == wanted {
                        return Some(&members[i].1);
                    }
                    i = i + 1;
                }
                None
            },
            _ => None,
        }
    }
}

/// Reads the rules of an axis out of its members.
///
/// Gives nothing exactly where the value of some member is no number or a
/// number that is no multiplier.
pub fn rules_of(members: &Vec<(String, Document)>) -> (r: Option<Vec<WeightRule>>)
    ensures
        match members_rules(members@) {
            Some(rules) => r matches Some(v) && rule_views(v@) == rules,
            None => r is None,
        },
{
    let mut rules: Vec<WeightRule> = Vec::new();
    let mut i: usize = 0;
    while i < members.len()
        invariant
            i <= members.len(),
            rules@.len() == i,
            forall|k: int|
                0 <= k < i ==> (#[trigger] member_rule(members@[k])) == Some(rules@[k]@),
        decreases members.len() - i,
    {
        let multiplier = match &members[i].1 {
            Document::Number { integer: _, text } => match Multiplier::parse(text.as_slice()) {
                Some(m) => m,
                None => {
                    assert(member_rule(members@[i as int]) is None);
                    return None;
                },
            },
            _ => {
                assert(member_rule(members@[i as int]) is None);
                return None;
            },
        };
        rules.push(WeightRule { key: members[i].0.clone(), multiplier });
        i = i + 1;
    }
    proof {
        assert(rule_views(rules@) == Seq::new(
            members@.len(),
            |k: int| member_rule(members@[k])->0,
        ));
    }
    Some(rules)
}

fn read_axis(doc: &Document, key: &str) -> (r: Option<Option<Vec<WeightRule>>>)
    ensures
        match document_axis(*doc, key@) {
            Some(axis) => r matches Some(a) && axis_view(a) == axis,
            None => r is None,
        },
{
    match doc.member(key) {
        Some(Document::Object(members)) => match rules_of(members) {
            Some(rules) => Some(Some(rules)),
            None => None,
        },
        _ => Some(None),
    }
}

/// Reads the weighting out of a parsed document.
///
/// Fails with `ConfigParse` exactly where the document writes no weighting.
pub fn config_from_document(doc: &Document) -> (r: Result<WeightConfig, Error>)
    ensures
        match document_config(*doc) {
            Some(cfg) => r matches Ok(c) && c@ == cfg,
            None => r matches Err(Error::ConfigParse),
        },
{
    let base_population: i64 = match doc.member("base_population") {
        None => DEFAULT_BASE_POPULATION,
        Some(Document::Number { integer: Some(b), text: _ }) => *b,
        Some(_) => {
            return Err(Error::ConfigParse);
        },
    };
    let country_weights = match read_axis(doc, "country") {
        Some(axis) => axis,
        None => {
            return Err(Error::ConfigParse);
        },
    };
    let city_weights = match read_axis(doc, "city") {
        Some(axis) => axis,
        None => {
            return Err(Error::ConfigParse);
        },
    };
    let cfg = WeightConfig { base_population, country_weights, city_weights };
    if cfg.is_valid() {
        Ok(cfg)
    } else {
        Err(Error::ConfigParse)
    }
}

proof fn lemma_openings_monotone(bytes: Seq<u8>, n: int)
    requires
        0 <= n <= bytes.len(),
    ensures
        openings(bytes.take(n)) <= openings(bytes),
    decreases bytes.len(),
{
    if n == bytes.len() {
        assert(bytes.take(n) == bytes);
    } else {
        assert(bytes.drop_last().take(n) == bytes.take(n));
        lemma_openings_monotone(bytes.drop_last(), n);
    }
}

/// Whether `bytes` hold no more openings than a document may.
pub fn within_openings(bytes: &[u8]) -> (ok: bool)
    ensures
        ok == (openings(bytes@) <= MAX_OPENINGS),
{
    let mut count: usize = 0;
    let mut i: usize = 0;
    while i < bytes.len()
        invariant
            i <= bytes@.len(),
            count == openings(bytes@.take(i as int)),
            count <= MAX_OPENINGS,
        decreases bytes@.len() - i,
    {
        proof {
            assert(bytes@.take(i + 1).drop_last() == bytes@.take(i as int));
            assert(bytes@.take(i + 1).last() == bytes@[i as int]);
        }
        if bytes[i] == 91 || bytes[i] == 123 {
            if count == MAX_OPENINGS {
                proof {
                    lemma_openings_monotone(bytes@, i + 1);
                }
                return false;
            }
            count = count + 1;
        }
        i = i + 1;
    }
    proof {
        assert(bytes@.take(i as int) == bytes@);
    }
    true
}

/// Reads the weighting out of the text of a document in Hjson.
///
/// Fails with `ConfigParse` exactly where the text holds more than
/// `MAX_OPENINGS` opening brackets and braces, where it is no Hjson, and
/// where it writes no weighting.
pub fn parse_config(text: &str) -> (r: Result<WeightConfig, Error>)
    ensures
        match text_config(text@) {
            Some(cfg) => r matches Ok(c) && c@ == cfg,
            None => r matches Err(Error::ConfigParse),
        },
{
    if !within_openings(text.as_bytes()) {
        return Err(Error::ConfigParse);
    }
    match read_hjson(text) {
        Some(value) => {
            let doc = document_of(&value);
            config_from_document(&doc)
        },
        None => Err(Error::ConfigParse),
    }
}

/// Reads the weighting out of the body of a fetched document.
///
/// Fails with `ConfigParse` exactly where the body is no text in UTF-8, and
/// where `parse_config` fails on the text.
pub fn read_config(body: &[u8]) -> (r: Result<WeightConfig, Error>)
    ensures
        match body_config(body@) {
            Some(cfg) => r matches Ok(c) && c@ == cfg,
            None => r matches Err(Error::ConfigParse),
        },
{
    match read_utf8(body) {
        Some(text) => parse_config(text),
        None => Err(Error::ConfigParse),
    }
}

} // verus!
