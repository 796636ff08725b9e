use tracing_ndjson::{
    builder, AttributeSet, EventRecord, Level, ScopeStore, Timestamp, TimestampFormat, TypedValue,
};

struct Lcg(u64);

impl Lcg {
    fn next(&mut self) -> u64 {
        self.0 = self
            .0
            .wrapping_mul(6364136223846793005)
            .wrapping_add(1442695040888963407);
        self.0 >> 33
    }

    fn below(&mut self, n: u64) -> u64 {
        self.next() % n
    }
}

const NAMES: [&str; 8] = [
    "message", "msg", "level", "x", "y", "target", "fields", "a\"b\n",
];

fn random_value(rng: &mut Lcg) -> (TypedValue, serde_json::Value) {
    match rng.below(6) {
        0 => {
            let n = rng.next() as i64 - (1 << 30);
            (TypedValue::Int128(n as i128), serde_json::Value::from(n))
        }
        1 => {
            let n = rng.next();
            (TypedValue::UInt128(n as u128), serde_json::Value::from(n))
        }
        2 => {
            let b = rng.below(2) == 0;
            (TypedValue::Bool(b), serde_json::Value::from(b))
        }
        3 => {
            let f = (rng.next() as f64) / 7.0 - 1000.0;
            let literal = serde_json::to_string(&f).unwrap();
            let read_back = serde_json::from_str(&literal).unwrap();
            (TypedValue::Float64(literal), read_back)
        }
        4 => {
            let s: String = (0..rng.below(6))
                .map(|_| char::from_u32(rng.below(0x250) as u32).unwrap_or('?'))
                .collect();
            (TypedValue::Str(s.clone()), serde_json::Value::from(s))
        }
        _ => {
            let s = format!("Error({})", rng.below(100));
            (
                TypedValue::RenderedError(s.clone()),
                serde_json::Value::from(s),
            )
        }
    }
}

fn random_pairs(rng: &mut Lcg) -> Vec<(String, TypedValue, serde_json::Value)> {
    (0..rng.below(5))
        .map(|_| {
            let name = NAMES[rng.below(NAMES.len() as u64) as usize].to_string();
            let (value, json) = random_value(rng);
            (name, value, json)
        })
        .collect()
}

fn put(object: &mut Vec<(String, serde_json::Value)>, name: &str, value: serde_json::Value) {
    match object.iter_mut().find(|(k, _)| k == name) {
        Some(entry) => entry.1 = value,
        None => object.push((name.to_string(), value)),
    }
}

fn renamed(name: &str, message_name: &str) -> String {
    if name == "message" {
        message_name.to_string()
    } else {
        name.to_string()
    }
}

fn as_json(object: Vec<(String, serde_json::Value)>) -> serde_json::Value {
    serde_json::Value::Object(object.into_iter().collect())
}

#[test]
fn random_records_parse_and_agree_with_a_model() {
    let mut rng = Lcg(42);
    for round in 0..400 {
        let flatten_fields = rng.below(2) == 0;
        let flatten_spans = rng.below(2) == 0;
        let message_name = if rng.below(2) == 0 { "message" } else { "msg" };
        let layer = builder()
            .with_message_name(message_name)
            .with_flatten_fields(flatten_fields)
            .with_flatten_spans(flatten_spans)
            .with_timestamp_format(TimestampFormat::UnixMillis)
            .with_file_names(rng.below(2) == 0)
            .with_line_numbers(rng.below(2) == 0)
            .layer();
        let event_pairs = random_pairs(&mut rng);
        let scopes: Vec<Vec<(String, TypedValue, serde_json::Value)>> =
            (0..rng.below(4)).map(|_| random_pairs(&mut rng)).collect();

        let mut attrs = AttributeSet::new();
        for (name, value, _) in &event_pairs {
            attrs.insert(name.clone(), value.clone());
        }
        let event = EventRecord {
            level: Level::Warn,
            target: "model".to_string(),
            file: if rng.below(2) == 0 { Some("f.rs".to_string()) } else { None },
            line: if rng.below(2) == 0 { Some(round) } else { None },
            attrs,
        };
        let chain: Vec<AttributeSet> = scopes
            .iter()
            .map(|pairs| {
                ScopeStore::create(
                    pairs
                        .iter()
                        .map(|(name, value, _)| (name.clone(), value.clone()))
                        .collect(),
                )
                .snapshot()
            })
            .collect();

        // the model: the same writes, in the same order, on a list of members
        let mut expected: Vec<(String, serde_json::Value)> = Vec::new();
        put(&mut expected, "level", "warn".into());
        put(&mut expected, "timestamp", 1_234_567u64.into());
        put(&mut expected, "target", "model".into());
        if layer.file_names && event.file.is_some() {
            put(&mut expected, "file", "f.rs".into());
        }
        if layer.line_numbers && event.line.is_some() {
            put(&mut expected, "line", round.into());
        }
        let object_of = |pairs: &Vec<(String, TypedValue, serde_json::Value)>| {
            let mut deduplicated: Vec<(String, serde_json::Value)> = Vec::new();
            for (name, _, json) in pairs {
                put(&mut deduplicated, name, json.clone());
            }
            let mut object = Vec::new();
            for (name, json) in deduplicated {
                put(&mut object, &renamed(&name, message_name), json);
            }
            object
        };
        if flatten_fields {
            for (name, json) in object_of(&event_pairs) {
                put(&mut expected, &name, json);
            }
        } else {
            put(&mut expected, "fields", as_json(object_of(&event_pairs)));
        }
        if flatten_spans {
            for scope in &scopes {
                for (name, json) in object_of(scope) {
                    put(&mut expected, &name, json);
                }
            }
        } else {
            let objects: Vec<serde_json::Value> = scopes
                .iter()
                .filter(|scope| !scope.is_empty())
                .map(|scope| as_json(object_of(scope)))
                .collect();
            if !objects.is_empty() {
                put(&mut expected, "spans", serde_json::Value::Array(objects));
            }
        }

        let now = Timestamp::new(1_234, 567_000_000).unwrap();
        let line = layer.format_at(&event, &chain, &now).unwrap();
        assert!(line.ends_with('\n'));
        assert_eq!(line.matches('\n').count(), 1);
        let parsed: serde_json::Value = serde_json::from_str(&line).unwrap();
        assert_eq!(parsed, as_json(expected.clone()), "round {}", round);
        let names: Vec<&String> = expected.iter().map(|(name, _)| name).collect();
        let mut position = 0;
        for name in names {
            let member = format!("{}:", serde_json::to_string(name).unwrap());
            let found = line[position..].find(&member);
            assert!(found.is_some(), "round {}: {} in {}", round, member, line);
            position += found.unwrap();
        }
    }
}
