use gloo::history::error::HistoryError;
use gloo::history::query::{FromQuery, Raw, ToQuery, UrlEncoded};

#[derive(PartialEq, Debug)]
struct SimpleQuery {
    string: String,
    number: u64,
    optional: Option<String>,
    boolean: bool,
}

impl SimpleQuery {
    fn to_pairs(&self) -> Vec<(String, String)> {
        let mut pairs = vec![
            ("string".to_string(), self.string.clone()),
            ("number".to_string(), self.number.to_string()),
        ];
        if let Some(optional) = &self.optional {
            pairs.push(("optional".to_string(), optional.clone()));
        }
        pairs.push(("boolean".to_string(), self.boolean.to_string()));
        pairs
    }

    fn from_pairs(pairs: &[(String, String)]) -> SimpleQuery {
        let find = |name: &str| pairs.iter().find(|(k, _)| k == name).map(|(_, v)| v.clone());
        SimpleQuery {
            string: find("string").unwrap(),
            number: find("number").unwrap().parse().unwrap(),
            optional: find("optional"),
            boolean: find("boolean").unwrap().parse().unwrap(),
        }
    }
}

#[test]
fn test_raw_encode_simple() {
    let query = Raw("name=value&other=that");
    assert_eq!(query.to_query().unwrap(), "name=value&other=that");
}

#[test]
fn test_raw_decode_simple() {
    let query = "name=value&other=that";
    let decoded = <Raw<String>>::from_query(query).unwrap();
    assert_eq!(decoded, query);
}

#[test]
fn test_urlencoded_encode_simple() {
    let query = SimpleQuery {
        string: "test".into(),
        number: 42,
        optional: None,
        boolean: true,
    };

    let encoded = UrlEncoded(query.to_pairs()).to_query().unwrap();
    assert_eq!(encoded, "string=test&number=42&boolean=true");
}

#[test]
fn test_urlencoded_decode_simple() {
    let encoded = "string=test&number=42&boolean=true";
    let data = SimpleQuery::from_pairs(&UrlEncoded::from_query(encoded).unwrap());
    assert_eq!(
        data,
        SimpleQuery {
            string: "test".into(),
            number: 42,
            optional: None,
            boolean: true,
        }
    );
}

#[test]
fn raw_string_roundtrip() {
    let decoded = <Raw<String>>::from_query("a=1&b").unwrap();
    assert_eq!(Raw(decoded).to_query().unwrap(), "a=1&b");
}

#[test]
fn urlencoded_escapes_reserved_characters() {
    let pairs = vec![("name".to_string(), "a b&c=d".to_string())];
    let encoded = UrlEncoded(pairs.clone()).to_query().unwrap();
    assert_eq!(encoded, "name=a+b%26c%3Dd");
    assert_eq!(UrlEncoded::from_query(&encoded).unwrap(), pairs);
}

#[test]
fn urlencoded_decodes_empty_query() {
    assert_eq!(UrlEncoded::from_query("").unwrap(), Vec::<(String, String)>::new());
}

#[test]
fn history_error_messages() {
    let err = serde_urlencoded::from_str::<Vec<(String, u8)>>("a=x").unwrap_err();
    assert_eq!(HistoryError::QueryDe(err).message(), "failed to deserialize query.");
}
