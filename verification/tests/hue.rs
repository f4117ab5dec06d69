use sapiens::hue::{select_lights, status_description, Light, StatusToolInput, StatusToolOutput};
use sapiens::tools::Describe;

fn light(id: &str, name: &str) -> Light {
    Light {
        id: id.to_string(),
        name: name.to_string(),
        on: Some(true),
        brightness: Some(126),
        hue: Some(2456),
        saturation: Some(55),
        color_temperature: Some(2500),
    }
}

fn lights() -> Vec<Light> {
    vec![light("1", "Corridor"), light("2", "Kitchen"), light("3", "Bedroom"), light("10", "Attic")]
}

fn names(lights: Vec<Light>) -> Vec<String> {
    lights.into_iter().map(|l| l.name).collect()
}

#[test]
fn all_lights_without_filter() {
    assert_eq!(names(select_lights(lights(), &None)), vec!["Corridor", "Kitchen", "Bedroom", "Attic"]);
}

#[test]
fn all_lights_with_an_empty_filter() {
    assert_eq!(
        names(select_lights(lights(), &Some(vec![]))),
        vec!["Corridor", "Kitchen", "Bedroom", "Attic"]
    );
}

#[test]
fn the_lights_of_the_filter() {
    let filter = Some(vec!["3".to_string(), "1".to_string(), "7".to_string()]);
    assert_eq!(names(select_lights(lights(), &filter)), vec!["Corridor", "Bedroom"]);
    let filter = Some(vec!["0".to_string()]);
    assert!(select_lights(lights(), &filter).is_empty());
    assert!(select_lights(vec![], &filter).is_empty());
}

#[test]
fn input_and_output_of_the_status_tool() {
    let input = StatusToolInput::new(Some(vec!["1".to_string()]));
    assert_eq!(input.filter(), &Some(vec!["1".to_string()]));
    let output = StatusToolOutput::new(select_lights(lights(), input.filter()));
    assert_eq!(output.into_lights(), vec![light("1", "Corridor")]);
}

#[test]
fn the_status_tool_is_described() {
    let description = status_description();
    assert_eq!(description.name, "LightStatusTool");
    assert_eq!(description.description, "A tool to use that the source of truth for the Light statuses.");
    assert_eq!(description.description_context, "Use this to fetch the Light statuses");
    assert_eq!(StatusToolInput::describe().parts[0].key, "light_filter");
    assert_eq!(
        StatusToolInput::describe().parts[0].purpose,
        "The list of Lights IDs (<string>) to get the status for, e.g.: [\"1\", \"2\"]. To get all the lights: []"
    );
    assert_eq!(StatusToolOutput::describe().parts[0].key, "lights");
    assert!(StatusToolOutput::describe().parts[0].purpose.starts_with("A list of Lights with their status."));
}
