use std::path::PathBuf;
use std::sync::Arc;

use verwalter::compat::{Engine, QueryData, QueryError, RenderStep, Responder, Settings};
use verwalter::id::Id;
use verwalter::json::Json;
use verwalter::schedule::Schedule;

fn n(x: &str) -> Json {
    Json::Number(x.to_string())
}

fn s(x: &str) -> Json {
    Json::String(x.to_string())
}

fn obj(entries: Vec<(&str, Json)>) -> Json {
    Json::Object(entries.into_iter().map(|(k, v)| (k.to_string(), v)).collect())
}

fn responder(data: Json, hostname: &str) -> Responder {
    let schedule = Schedule {
        timestamp: 1,
        hash: "h".to_string(),
        data,
        origin: Id::new(&[0; 16]),
    };
    let settings = Settings {
        id: Id::new(&[0; 16]),
        hostname: hostname.to_string(),
        config_dir: PathBuf::from("/etc/verwalter"),
    };
    Responder::new(Arc::new(schedule), &settings)
}

fn sample() -> Json {
    obj(vec![
        ("nodes", obj(vec![
            ("host1", obj(vec![
                ("roles", obj(vec![("web", obj(vec![("z", n("3"))]))])),
                ("vars", obj(vec![("y", n("2"))])),
            ])),
        ])),
        ("roles", obj(vec![("db", obj(vec![])), ("web", obj(vec![("port", n("80"))]))])),
        ("vars", obj(vec![("x", n("1"))])),
    ])
}

#[test]
fn roles_are_rendered_with_merged_variables() {
    let r = responder(sample(), "host1").render_roles_at("2018-02-14T00:28:07Z");
    assert_eq!(r.to_render.len(), 1);
    assert_eq!(r.to_render[0].0, "web");
    assert_eq!(r.to_render[0].1, obj(vec![
        ("node", s("host1")),
        ("port", n("80")),
        ("role", s("web")),
        ("timestamp", s("2018-02-14T00:28:07Z")),
        ("x", n("1")),
        ("y", n("2")),
        ("z", n("3")),
    ]));
}

#[test]
fn all_roles_holds_role_keys_and_node_role_variable_names() {
    let r = responder(sample(), "host1").render_roles_at("t");
    let mut names = r.all_roles.clone();
    names.sort();
    assert_eq!(names, vec!["db".to_string(), "web".to_string(), "z".to_string()]);
}

#[test]
fn node_variable_is_not_overridden() {
    let data = obj(vec![
        ("nodes", obj(vec![
            ("h", obj(vec![("roles", obj(vec![("r", obj(vec![("node", s("custom"))]))]))])),
        ])),
    ]);
    let r = responder(data, "h").render_roles_at("t");
    assert_eq!(r.to_render, vec![("r".to_string(), obj(vec![
        ("node", s("custom")),
        ("role", s("r")),
        ("timestamp", s("t")),
    ]))]);
}

#[test]
fn unknown_host_renders_nothing() {
    let r = responder(sample(), "other").render_roles_at("t");
    assert!(r.to_render.is_empty());
    let mut names = r.all_roles.clone();
    names.sort();
    assert_eq!(names, vec!["db".to_string(), "web".to_string()]);
}

#[test]
fn schedule_that_is_not_an_object_renders_nothing() {
    let r = responder(Json::Null, "h").render_roles_at("t");
    assert!(r.to_render.is_empty());
    assert!(r.all_roles.is_empty());
}

#[test]
fn render_roles_stamps_the_current_time() {
    let r = responder(sample(), "host1").render_roles("id", None).unwrap();
    assert_eq!(r.to_render.len(), 1);
    let vars = match &r.to_render[0].1 {
        Json::Object(v) => v.clone(),
        _ => panic!("variables are an object"),
    };
    let stamp = vars.iter().find(|(k, _)| k == "timestamp").map(|(_, v)| v);
    match stamp {
        Some(Json::String(t)) => assert!(t.ends_with('Z') && t.len() >= 20),
        other => panic!("no timestamp: {:?}", other),
    }
}

#[test]
fn query_is_not_supported() {
    let resp = responder(sample(), "host1");
    let q = QueryData { path: "/x".to_string(), body: Json::Null };
    assert_eq!(resp.query(q).err(), Some(QueryError::NotSupported));
}

#[test]
fn responder_keeps_its_schedule() {
    let resp = responder(sample(), "host1");
    assert_eq!(resp.schedule().hash, "h");
}

#[test]
fn rendered_roles_come_in_order_of_names() {
    let data = obj(vec![
        ("nodes", obj(vec![
            ("h", obj(vec![("roles", obj(vec![
                ("web", obj(vec![])),
                ("app", obj(vec![])),
                ("db", obj(vec![])),
            ]))])),
        ])),
    ]);
    let r = responder(data, "h").render_roles_at("t");
    let names: Vec<&str> = r.to_render.iter().map(|(k, _)| k.as_str()).collect();
    assert_eq!(names, vec!["app", "db", "web"]);
}

#[test]
fn roles_rendered_now_carry_an_rfc3339_moment() {
    let r = responder(sample(), "host1").render_roles("id", None).unwrap();
    match &r.to_render[0].1 {
        Json::Object(entries) => {
            let ts = entries.iter().find(|(k, _)| k == "timestamp").map(|(_, v)| v);
            match ts {
                Some(Json::String(t)) => {
                    assert!(t.len() == 20 || t.len() == 30);
                    assert!(t.ends_with('Z'));
                    assert_eq!(&t[4..5], "-");
                    assert_eq!(&t[10..11], "T");
                }
                _ => panic!("a timestamp was expected"),
            }
        }
        _ => panic!("an object was expected"),
    }
}

#[test]
fn engine_switches_to_new_schedules_and_skips_repeats() {
    let settings = Settings {
        id: Id::new(&[0; 16]),
        hostname: "host1".to_string(),
        config_dir: PathBuf::from("/etc/verwalter"),
    };
    let make = |hash: &str| Schedule { timestamp: 1, hash: hash.to_string(), data: sample(), origin: Id::new(&[0; 16]) };
    let mut engine = Engine::Empty;
    assert!(matches!(engine.rerender_step("r0".to_string()), RenderStep::Skip));
    match engine.new_schedule_step(make("one"), &settings, "abcdefghijklmnopqrstuvwx".to_string()) {
        RenderStep::Apply(d) => {
            assert_eq!(d.id, "abcdefghijklmnopqrstuvwx");
            assert_eq!(d.schedule.hash, "one");
            assert_eq!(d.roles.len(), 1);
            assert_eq!(d.roles[0].0, "web");
            assert_eq!(d.all_roles.len(), 3);
        }
        _ => panic!("the roles were expected"),
    }
    assert_eq!(engine.schedule().map(|s| s.hash.clone()), Some("one".to_string()));
    assert!(matches!(engine.new_schedule_step(make("one"), &settings, "x".to_string()), RenderStep::Skip));
    match engine.rerender_step("again".to_string()) {
        RenderStep::Apply(d) => {
            assert_eq!(d.id, "again");
            assert_eq!(d.schedule.hash, "one");
        }
        _ => panic!("the roles were expected"),
    }
    assert!(matches!(engine.new_schedule_step(make("two"), &settings, "y".to_string()), RenderStep::Apply(_)));
    assert_eq!(engine.schedule().map(|s| s.hash.clone()), Some("two".to_string()));
}
