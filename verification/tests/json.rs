use docker_image::json::{json_members, text_or_message};
use docker_image::{to_json, ImageName};

#[test]
fn prints_out_multiple_images() {
    let images = vec!["registry.example.com/hello/world:v1.0.0", "hello-world"];
    let parsed: Vec<ImageName> = images.iter().map(|s| ImageName::parse(*s)).collect();

    let actual_json = to_json(&parsed, false).unwrap();

    let expected_json = r#"[
  {
    "repository": "registry.example.com/hello/world",
    "tag": "v1.0.0"
  },
  {
    "repository": "hello-world",
    "tag": null
  }
]"#;
    assert_eq!(expected_json, actual_json);
}

#[test]
fn prints_out_single_image_without_array() {
    let images = vec!["hello-world"];
    let parsed: Vec<ImageName> = images.iter().map(|s| ImageName::parse(*s)).collect();

    let actual_json = to_json(&parsed, false).unwrap();

    let expected_json = r#"{
  "repository": "hello-world",
  "tag": null
}"#;
    assert_eq!(expected_json, actual_json);
}

#[test]
fn prints_out_single_image_with_array() {
    let images = vec!["hello-world"];
    let parsed: Vec<ImageName> = images.iter().map(|s| ImageName::parse(*s)).collect();

    let actual_json = to_json(&parsed, true).unwrap();

    let expected_json = r#"[
  {
    "repository": "hello-world",
    "tag": null
  }
]"#;
    assert_eq!(expected_json, actual_json);
}

#[test]
fn multiple_images_with_forced_array_are_the_same_array() {
    let parsed = vec![ImageName::parse("a:1"), ImageName::parse("b")];
    let expected = "[\n  {\n    \"repository\": \"a\",\n    \"tag\": \"1\"\n  },\n  {\n    \"repository\": \"b\",\n    \"tag\": null\n  }\n]";
    assert_eq!(to_json(&parsed, true).unwrap(), expected);
    assert_eq!(to_json(&parsed, false).unwrap(), expected);
}

#[test]
fn single_tagged_image_is_a_bare_object() {
    let parsed = vec![ImageName::parse("ubuntu:latest")];
    assert_eq!(
        to_json(&parsed, false).unwrap(),
        "{\n  \"repository\": \"ubuntu\",\n  \"tag\": \"latest\"\n}"
    );
}

#[test]
fn empty_tag_is_written_as_an_empty_string() {
    let parsed = vec![ImageName::parse("repo:")];
    assert_eq!(
        to_json(&parsed, false).unwrap(),
        "{\n  \"repository\": \"repo\",\n  \"tag\": \"\"\n}"
    );
}

#[test]
fn no_images_give_an_empty_array() {
    let parsed: Vec<ImageName> = Vec::new();
    assert_eq!(to_json(&parsed, false).unwrap(), "[]");
    assert_eq!(to_json(&parsed, true).unwrap(), "[]");
}

#[test]
fn input_order_is_kept() {
    let parsed = vec![ImageName::parse("z"), ImageName::parse("a"), ImageName::parse("m")];
    let text = to_json(&parsed, false).unwrap();
    let z = text.find("\"z\"").unwrap();
    let a = text.find("\"a\"").unwrap();
    let m = text.find("\"m\"").unwrap();
    assert!(z < a && a < m);
}

#[test]
fn special_characters_are_escaped() {
    let parsed = vec![ImageName::parse("we\"ird\\repo:t\nag")];
    assert_eq!(
        to_json(&parsed, false).unwrap(),
        "{\n  \"repository\": \"we\\\"ird\\\\repo\",\n  \"tag\": \"t\\nag\"\n}"
    );
}

#[test]
fn written_text_reads_back_as_the_parsed_parts() {
    let parsed = vec![ImageName::parse("registry.example.com/app:v1"), ImageName::parse("plain")];
    let text = to_json(&parsed, false).unwrap();
    let value: serde_json::Value = serde_json::from_str(&text).unwrap();
    let list = value.as_array().unwrap();
    assert_eq!(list.len(), 2);
    assert_eq!(list[0]["repository"].as_str(), Some("registry.example.com/app"));
    assert_eq!(list[0]["tag"].as_str(), Some("v1"));
    assert_eq!(list[1]["repository"].as_str(), Some("plain"));
    assert!(list[1]["tag"].is_null());
    assert_eq!(list[1].as_object().unwrap().len(), 2);
}

#[test]
fn members_are_repository_then_tag() {
    let image = ImageName::parse("ubuntu:latest");
    assert_eq!(
        json_members(&image),
        vec![("repository", Some("ubuntu")), ("tag", Some("latest"))]
    );
    let image = ImageName::parse("ubuntu");
    assert_eq!(json_members(&image), vec![("repository", Some("ubuntu")), ("tag", None)]);
}

#[test]
fn written_text_is_handed_on_unchanged() {
    assert_eq!(text_or_message(Ok("{}".to_string())), Ok("{}".to_string()));
    assert_eq!(text_or_message(Ok(String::new())), Ok(String::new()));
}

#[test]
fn serializer_error_becomes_its_message() {
    let error = serde_json::from_str::<serde_json::Value>("").unwrap_err();
    let message = error.to_string();
    assert_eq!(message, "EOF while parsing a value at line 1 column 0");
    assert_eq!(text_or_message(Err(error)), Err(message));
}
