use prompt_context::tools::{CXError, CXImage, CXNothing, Descriptor, IdArgs, ImageFinder};

#[test]
fn test_tool_names() {
    assert_eq!(Descriptor::NAME, "descriptor");
    assert_eq!(ImageFinder::NAME, "image_finder");
    assert_eq!(CXNothing::NAME, "nothing");
}

#[test]
fn test_descriptor_definition() {
    let d = Descriptor.definition("any prompt".to_string());
    assert_eq!(d.name, "descriptor");
    assert_eq!(d.description, "Descrip document by it ID");
    let parameters: serde_json::Value = serde_json::from_str(&d.parameters).unwrap();
    assert_eq!(parameters["type"], "object");
    assert_eq!(parameters["properties"]["id"]["type"], "string");
    assert_eq!(parameters["properties"]["id"]["description"], "Id of the document to describe");
    assert_eq!(parameters["required"][0], "id");
    assert_eq!(parameters["required"].as_array().unwrap().len(), 1);
    assert_eq!(parameters.as_object().unwrap().len(), 3);
}

#[test]
fn test_image_finder_definition() {
    let d = ImageFinder.definition(String::new());
    assert_eq!(d.name, "image_finder");
    assert_eq!(d.description, "Find images by query");
    let parameters: serde_json::Value = serde_json::from_str(&d.parameters).unwrap();
    assert_eq!(parameters["type"], "object");
    assert_eq!(parameters["properties"]["id"]["type"], "string");
    assert_eq!(parameters["properties"]["id"]["description"], "Id to search for images");
    assert_eq!(parameters["required"][0], "id");
    assert_eq!(parameters.as_object().unwrap().len(), 3);
}

#[test]
fn test_nothing_definition() {
    let d = CXNothing.definition(String::new());
    assert_eq!(d.name, "descriptor");
    assert_eq!(
        d.description,
        "The default tool when there is no request for objects, buildings, structures, reports, images, videos, descriptions and comparisons.Always call this function if the parameters are not found."
    );
    let parameters: serde_json::Value = serde_json::from_str(&d.parameters).unwrap();
    assert_eq!(parameters["type"], "object");
    assert!(parameters["properties"].as_object().unwrap().is_empty());
    assert_eq!(parameters.as_object().unwrap().len(), 2);
}

#[test]
fn test_definition_ignores_the_prompt() {
    let a = Descriptor.definition("one".to_string());
    let b = Descriptor.definition("two".to_string());
    assert_eq!(a.name, b.name);
    assert_eq!(a.description, b.description);
    assert_eq!(a.parameters, b.parameters);
}

#[test]
fn test_descriptor_call() {
    assert_eq!(Descriptor.call(IdArgs::new("doc-17".to_string())), Ok("doc-17".to_string()));
    assert_eq!(Descriptor.call(IdArgs::new(String::new())), Ok(String::new()));
}

#[test]
fn test_image_finder_call() {
    let image = ImageFinder.call(&IdArgs::new("anything".to_string())).unwrap();
    assert_eq!(image.url(), "./data/2025-12-15.jpg");
    assert_eq!(image.storage_path(), None);
    assert_eq!(image.size(), None);
    assert_eq!(image.mime_type(), None);
    assert_eq!(image.hash(), None);
    assert_eq!(image.description(), None);
}

#[test]
fn test_nothing_call() {
    assert_eq!(CXNothing.call("whatever".to_string()), Ok("I am nobody!".to_string()));
    assert_eq!(CXNothing.call(String::new()), Ok("I am nobody!".to_string()));
}

#[test]
fn test_image_parts() {
    let image = CXImage::new(
        "u".to_string(),
        Some("p".to_string()),
        Some(12),
        Some("image/png".to_string()),
        Some("abc".to_string()),
        Some("a cat".to_string()),
    );
    assert_eq!(image.url(), "u");
    assert_eq!(image.storage_path(), Some("p"));
    assert_eq!(image.size(), Some(12));
    assert_eq!(image.mime_type(), Some("image/png"));
    assert_eq!(image.hash(), Some("abc"));
    assert_eq!(image.description(), Some("a cat"));
}

#[test]
fn test_id_args() {
    assert_eq!(IdArgs::new("x1".to_string()).id(), "x1");
}

#[test]
fn test_tool_error_message() {
    assert_eq!(CXError.message(), "App error");
}
