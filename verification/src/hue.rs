//! What the tool that reports the status of the lights decides: which of the lights
//! that the bridge knows are reported.
use crate::tools::{Describe, Format, FormatPart, ToolDescription, ToolDescriptionView};
use vstd::prelude::*;

verus! {

/// A light and its status.
#[derive(Debug, PartialEq)]
pub struct Light {
    /// The identifier of the light
    pub id: String,
    /// The name of the light
    pub name: String,
    /// Whether the light is on
    pub on: Option<bool>,
    /// The brightness of the light
    pub brightness: Option<u8>,
    /// The hue of the light
    pub hue: Option<u16>,
    /// The saturation of the light
    pub saturation: Option<u8>,
    /// The color temperature of the light
    pub color_temperature: Option<u16>,
}

/// The input of the tool
#[derive(Debug, PartialEq)]
pub struct StatusToolInput {
    light_filter: Option<Vec<String>>,
}

/// The output of the tool
#[derive(Debug, PartialEq)]
pub struct StatusToolOutput {
    lights: Vec<Light>,
}

/// The identifiers of a filter, as specifications see them.
pub open spec fn filter_view(light_filter: Option<Vec<String>>) -> Option<Seq<Seq<char>>> {
    match light_filter {
        Some(ids) => Some(ids@.map_values(|id: String| id@)),
        None => None,
    }
}

impl StatusToolInput {
    /// The input that asks for the lights of the given identifiers: for all the
    /// lights where no or no identifiers are given.
    pub fn new(light_filter: Option<Vec<String>>) -> (input: Self)
        ensures
            input.light_filter() == light_filter,
    {
        StatusToolInput { light_filter }
    }

    /// The identifiers of the lights that are asked for
    pub closed spec fn light_filter(&self) -> Option<Vec<String>> {
        self.light_filter
    }

    /// The identifiers of the lights that are asked for
    pub fn filter(&self) -> (light_filter: &Option<Vec<String>>)
        ensures
            *light_filter == self.light_filter(),
    {
        &self.light_filter
    }
}

impl StatusToolOutput {
    /// The output that reports the given lights
    pub fn new(lights: Vec<Light>) -> (output: Self)
        ensures
            output.lights() == lights,
    {
        StatusToolOutput { lights }
    }

    /// The lights that are reported
    pub closed spec fn lights(&self) -> Vec<Light> {
        self.lights
    }

    /// The lights that are reported
    pub fn into_lights(self) -> (lights: Vec<Light>)
        ensures
            lights == self.lights(),
    {
        self.lights
    }
}

/// The format of the input of the tool.
pub open spec fn status_input_format() -> Seq<(Seq<char>, Seq<char>)> {
    seq![
        (
            "light_filter"@,
            "The list of Lights IDs (<string>) to get the status for, e.g.: [\"1\", \"2\"]. To get all the lights: []"@,
        ),
    ]
}

/// The format of the output of the tool.
pub open spec fn status_output_format() -> Seq<(Seq<char>, Seq<char>)> {
    seq![
        (
            "lights"@,
            r#"A list of Lights with their status. E.g.: [{"id": "1", "name": "Corridor", "on": True, "brightness": 126, "hue": 2456, "saturation": 55, "color_temperature": 2500}]"#@,
        ),
    ]
}

impl Describe for StatusToolInput {
    fn describe() -> (format: Format)
        ensures
            format@ == status_input_format(),
    {
        let mut parts: Vec<FormatPart> = Vec::new();
        parts.push(
            FormatPart::new(
                "light_filter",
                "The list of Lights IDs (<string>) to get the status for, e.g.: [\"1\", \"2\"]. To get all the lights: []",
            ),
        );
        let format = Format::new(parts);
        assert(format@ == status_input_format());
        format
    }
}

impl Describe for StatusToolOutput {
    fn describe() -> (format: Format)
        ensures
            format@ == status_output_format(),
    {
        let mut parts: Vec<FormatPart> = Vec::new();
        parts.push(
            FormatPart::new(
                "lights",
                r#"A list of Lights with their status. E.g.: [{"id": "1", "name": "Corridor", "on": True, "brightness": 126, "hue": 2456, "saturation": 55, "color_temperature": 2500}]"#,
            ),
        );
        let format = Format::new(parts);
        assert(format@ == status_output_format());
        format
    }
}

/// The description of the tool.
pub fn status_description() -> (description: ToolDescription)
    ensures
        description@ == (ToolDescriptionView {
            name: "LightStatusTool"@,
            description: "A tool to use that the source of truth for the Light statuses."@,
            description_context: "Use this to fetch the Light statuses"@,
            input_format: status_input_format(),
            output_format: status_output_format(),
        }),
{
    ToolDescription::new(
        "LightStatusTool",
        "A tool to use that the source of truth for the Light statuses.",
        "Use this to fetch the Light statuses",
        StatusToolInput::describe(),
        StatusToolOutput::describe(),
    )
}

/// Whether a light of the given identifier is asked for: all are where no filter or
/// an empty one is given, else those whose identifier the filter holds.
pub open spec fn is_selected(light_filter: Option<Seq<Seq<char>>>, id: Seq<char>) -> bool {
    match light_filter {
        Some(ids) => ids.len() == 0 || ids.contains(id),
        None => true,
    }
}

/// The lights that are asked for, in the order in which they are given.
pub open spec fn selected(lights: Seq<Light>, light_filter: Option<Seq<Seq<char>>>) -> Seq<Light>
    decreases lights.len(),
{
    if lights.len() == 0 {
        Seq::empty()
    } else if is_selected(light_filter, lights[0].id@) {
        seq![lights[0]] + selected(lights.drop_first(), light_filter)
    } else {
        selected(lights.drop_first(), light_filter)
    }
}

/// Whether a light of the given identifier is asked for.
fn is_asked_for(light_filter: &Option<Vec<String>>, id: &str) -> (asked: bool)
    ensures
        asked == is_selected(filter_view(*light_filter), id@),
{
    match light_filter {
        None => true,
        Some(ids) => {
            if ids.len() == 0 {
                return true;
            }
            let ghost all = ids@.map_values(|id: String| id@);
            let mut i: usize = 0;
            while i < ids.len()
                invariant
                    i <= ids.len(),
                    all == ids@.map_values(|id: String| id@),
                    filter_view(*light_filter) == Some(all),
                    forall|j: int| 0 <= j < i ==> all[j] != id@,
                decreases ids.len() - i,
            {
                if crate::value::same_text(ids[i].as_str(), id) {
                    assert(all[i as int] == id@);
                    return true;
                }
                i += 1;
            }
            false
        },
    }
}

/// The lights in the opposite order.
fn turned(lights: Vec<Light>) -> (back: Vec<Light>)
    ensures
        back@ == lights@.reverse(),
{
    let mut lights = lights;
    let ghost all = lights@;
    let mut back: Vec<Light> = Vec::new();
    while lights.len() > 0
        invariant
            lights@.len() <= all.len(),
            lights@ == all.take(lights@.len() as int),
            back@.len() == all.len() - lights@.len(),
            forall|j: int| 0 <= j < back@.len() ==> back@[j] == all[all.len() - 1 - j],
        decreases lights.len(),
    {
        let ghost before = lights@;
        match lights.pop() {
            Some(light) => {
                assert(light == all[before.len() - 1]);
                back.push(light);
            },
            None => {},
        }
    }
    assert(back@ == all.reverse());
    back
}

/// Keeps the lights that are asked for, in the order in which they are given.
pub fn select_lights(lights: Vec<Light>, light_filter: &Option<Vec<String>>) -> (kept: Vec<Light>)
    ensures
        kept@ == selected(lights@, filter_view(*light_filter)),
{
    let ghost all = lights@;
    let ghost filter = filter_view(*light_filter);
    let mut rest = turned(lights);
    let mut kept: Vec<Light> = Vec::new();
    assert(all.skip(0) == all);
    while rest.len() > 0
        invariant
            rest@.len() <= all.len(),
            filter == filter_view(*light_filter),
            forall|j: int| 0 <= j < rest@.len() ==> rest@[j] == all[all.len() - 1 - j],
            selected(all, filter) == kept@ + selected(all.skip(all.len() - rest@.len()), filter),
        decreases rest.len(),
    {
        let ghost place = all.len() - rest@.len();
        let ghost before = kept@;
        match rest.pop() {
            Some(light) => {
                proof {
                    assert(light == all[place]);
                    assert(all.skip(place)[0] == all[place]);
                    assert(all.skip(place).drop_first() == all.skip(place + 1));
                }
                if is_asked_for(light_filter, light.id.as_str()) {
                    kept.push(light);
                    assert(kept@ + selected(all.skip(place + 1), filter) == before + (seq![light]
                        + selected(all.skip(place + 1), filter)));
                }
            },
            None => {},
        }
    }
    assert(all.skip(all.len() as int) == Seq::<Light>::empty());
    assert(kept@ + Seq::<Light>::empty() == kept@);
    kept
}

} // verus!
