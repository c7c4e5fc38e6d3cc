use goldsrc_assets::entities::BspEntity;
use goldsrc_assets::logic::entity::{
    chars_of, entity_class, parse_i32, EntityClass, parse_usize, OkOr, split_whitespace, BasicEnumParseError, EntityParseError, FuncDoor,
    FuncWall, InfoPlayerStart, ModelReference, ParseEntity, ParseEntityValue, RenderMode, TargetName,
    TriggerChangeLevel, UnknownEntityValues,
};

fn entity<'a>(pairs: &[(&'a str, &'a str)]) -> BspEntity<'a> {
    BspEntity(pairs.to_vec())
}

fn chars(s: &str) -> Vec<char> {
    s.chars().collect()
}

#[test]
fn integers_read_as_rust_parses_them() {
    assert_eq!(parse_i32(&chars("42")), Some(42));
    assert_eq!(parse_i32(&chars("-17")), Some(-17));
    assert_eq!(parse_i32(&chars("+8")), Some(8));
    assert_eq!(parse_i32(&chars("2147483647")), Some(i32::MAX));
    assert_eq!(parse_i32(&chars("-2147483648")), Some(i32::MIN));
    assert_eq!(parse_i32(&chars("2147483648")), None);
    assert_eq!(parse_i32(&chars("")), None);
    assert_eq!(parse_i32(&chars("-")), None);
    assert_eq!(parse_i32(&chars("1.5")), None);
    assert_eq!(parse_i32(&chars(" 1")), None);
    assert_eq!(parse_usize(&chars("12")), Some(12));
    assert_eq!(parse_usize(&chars("-1")), None);
    assert_eq!(chars_of("ab"), vec!['a', 'b']);
}

#[test]
fn words_are_split_on_whitespace() {
    let words = split_whitespace(&chars("  1\t 22 333\n"));
    assert_eq!(words, vec![chars("1"), chars("22"), chars("333")]);
    assert!(split_whitespace(&chars("   ")).is_empty());
}

#[test]
fn integer_values_and_their_errors() {
    let e = entity(&[("angle", "90"), ("lip", "x")]);
    assert_eq!(<i32 as ParseEntityValue>::parse("angle", &e).ok(), Some(90));
    match <i32 as ParseEntityValue>::parse("lip", &e) {
        Err(EntityParseError::InvalidValue { value_name, value_str }) => {
            assert_eq!((value_name, value_str), ("lip", "x"));
        }
        _ => panic!("expected an invalid value"),
    }
    match <i32 as ParseEntityValue>::parse("speed", &e) {
        Err(err) => assert_eq!(err.to_string(), "MissingValue{ name: speed }"),
        Ok(_) => panic!("expected a missing value"),
    }
    assert_eq!(<Option<i32> as ParseEntityValue>::parse("speed", &e).ok(), Some(None));
    assert_eq!(<Option<i32> as ParseEntityValue>::parse("angle", &e).ok(), Some(Some(90)));
    assert!(<Option<i32> as ParseEntityValue>::parse("lip", &e).is_err());
}

#[test]
fn errors_are_displayed_with_name_and_value() {
    let invalid = EntityParseError::InvalidValue { value_name: "origin", value_str: "1 2" };
    assert_eq!(invalid.to_string(), "InvalidValue{ name: origin, value: 1 2 }");
    let missing = EntityParseError::MissingValue { value_name: "map" };
    assert_eq!(missing.to_string(), "MissingValue{ name: map }");
}

#[test]
fn vectors_of_three_integers() {
    let e = entity(&[("a", "1 -2 3"), ("b", "0"), ("c", "5"), ("d", "1 2"), ("f", "1 x 3")]);
    assert_eq!(<[i32; 3] as ParseEntityValue>::parse("a", &e).ok(), Some([1, -2, 3]));
    // A single zero stands for all three.
    assert_eq!(<[i32; 3] as ParseEntityValue>::parse("b", &e).ok(), Some([0, 0, 0]));
    assert!(<[i32; 3] as ParseEntityValue>::parse("c", &e).is_err());
    assert!(<[i32; 3] as ParseEntityValue>::parse("d", &e).is_err());
    match <[i32; 3] as ParseEntityValue>::parse("f", &e) {
        Err(EntityParseError::InvalidValue { value_str, .. }) => assert_eq!(value_str, "1 x 3"),
        _ => panic!("expected an invalid value"),
    }
}

#[test]
fn model_references_are_indices_or_paths() {
    let e = entity(&[("a", "*12"), ("b", "models/door.mdl"), ("c", "*x")]);
    assert!(matches!(<ModelReference as ParseEntityValue>::parse("a", &e), Ok(ModelReference::Index(12))));
    match <ModelReference as ParseEntityValue>::parse("b", &e) {
        Ok(ModelReference::Path(p)) => assert_eq!(p, "models/door.mdl"),
        _ => panic!("expected a path"),
    }
    match <ModelReference as ParseEntityValue>::parse("c", &e) {
        Err(EntityParseError::InvalidValue { value_str, .. }) => assert_eq!(value_str, "x"),
        _ => panic!("expected an invalid value"),
    }
}

#[test]
fn strings_and_target_names_are_copied() {
    let e = entity(&[("target", "door1"), ("message", "hello")]);
    let t = <TargetName as ParseEntityValue>::parse("target", &e).ok().unwrap();
    assert_eq!(t.0, "door1");
    assert_eq!(<String as ParseEntityValue>::parse("message", &e).ok(), Some("hello".to_string()));
    assert!(<String as ParseEntityValue>::parse("missing", &e).is_err());
}

#[test]
fn render_modes_read_from_their_numbers() {
    assert!(RenderMode::from_str("0") == Ok(RenderMode::Normal));
    assert!(RenderMode::from_str("5") == Ok(RenderMode::TransparentAdd));
    assert!(RenderMode::from_str("6") == Err(BasicEnumParseError::InvalidValue(6)));
    assert!(RenderMode::from_str("glow") == Err(BasicEnumParseError::InvalidStr));
    assert!(RenderMode::from_value(3) == Some(RenderMode::Glow));
    assert!(RenderMode::from_value(-1).is_none());
    let e = entity(&[("rendermode", "4")]);
    assert!(matches!(<RenderMode as ParseEntityValue>::parse("rendermode", &e), Ok(RenderMode::TransparentAlpha)));
}

#[test]
fn change_level_triggers_need_map_and_landmark() {
    let full = entity(&[("map", "c1a1"), ("landmark", "lm"), ("changetarget", "t")]);
    let t = TriggerChangeLevel::parse(&full).ok().unwrap();
    assert_eq!((t.map.as_str(), t.landmark.0.as_str()), ("c1a1", "lm"));
    assert_eq!(t.change_target.unwrap().0, "t");
    let no_target = entity(&[("landmark", "lm"), ("map", "c1a1")]);
    assert!(TriggerChangeLevel::parse(&no_target).ok().unwrap().change_target.is_none());
    match TriggerChangeLevel::parse(&entity(&[("landmark", "lm")])) {
        Err(e) => assert_eq!(e.to_string(), "MissingValue{ name: map }"),
        Ok(_) => panic!("expected an error"),
    }
    match TriggerChangeLevel::parse(&entity(&[("map", "m")])) {
        Err(e) => assert_eq!(e.to_string(), "MissingValue{ name: landmark }"),
        Ok(_) => panic!("expected an error"),
    }
}

#[test]
fn simple_entities_and_unknown_values() {
    let e = entity(&[("classname", "func_wall"), ("rendermode", "2")]);
    assert!(FuncWall::parse(&e).is_ok());
    assert!(InfoPlayerStart::parse(&e).is_ok());
    let unknown = UnknownEntityValues::parse(&e).ok().unwrap();
    assert_eq!(
        unknown.0,
        vec![("classname".to_string(), "func_wall".to_string()), ("rendermode".to_string(), "2".to_string())]
    );
    let door = FuncDoor { angle: None, lip: Some(4), speed: None };
    assert_eq!(door.angle(), 0);
    let door = FuncDoor { angle: Some(270), lip: None, speed: None };
    assert_eq!(door.angle(), 270);
}

#[test]
fn parse_results_take_the_callers_error() {
    let good: Result<i32, std::num::ParseIntError> = "12".parse();
    assert_eq!(good.ok_or("bad"), Ok(12));
    let bad: Result<i32, std::num::ParseIntError> = "x".parse();
    assert_eq!(bad.ok_or("bad"), Err("bad"));
}

#[test]
fn class_names_pick_the_entity_kind() {
    assert_eq!(entity_class("func_wall"), EntityClass::FuncWall);
    assert_eq!(entity_class("func_door"), EntityClass::FuncDoor);
    assert_eq!(entity_class("info_player_start"), EntityClass::InfoPlayerStart);
    assert_eq!(entity_class("trigger_changelevel"), EntityClass::TriggerChangeLevel);
    assert_eq!(entity_class("light"), EntityClass::Unknown);
    assert_eq!(entity_class("func_wall_toggle"), EntityClass::Unknown);
    assert_eq!(entity_class(""), EntityClass::Unknown);
}
