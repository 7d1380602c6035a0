//! Plants watered by a device.
use crate::config::PlantConfig;
use vstd::prelude::*;

verus! {

/// What a plant is, as the scheduling rules see it.
pub struct PlantView {
    pub id: u32,
    pub name: Seq<char>,
}

/// A plant watered by a device: its identifier and its name.
#[derive(Debug)]
pub struct Plant {
    pub id: u32,
    pub name: String,
}

impl View for Plant {
    type V = PlantView;

    open spec fn view(&self) -> PlantView {
        PlantView { id: self.id, name: self.name@ }
    }
}

/// The views of a list of plants.
pub open spec fn plant_views(plants: Seq<Plant>) -> Seq<PlantView> {
    plants.map_values(|p: Plant| p@)
}

impl Plant {
    /// A plant with the given identifier and name.
    pub fn new(id: u32, name: String) -> (p: Plant)
        ensures
            p.id == id,
            p.name == name,
            p@ == (PlantView { id, name: name@ }),
    {
        Plant { id, name }
    }

    /// The plant that a configuration entry describes.
    pub fn from_config(config: &PlantConfig) -> (p: Plant)
        ensures
            p@ == config@,
            p == (Plant { id: config.id, name: config.name }),
    {
        Plant { id: config.id, name: config.name.clone() }
    }
}

impl<'a> From<&'a PlantConfig> for Plant {
    fn from(config: &'a PlantConfig) -> (p: Plant) {
        Plant::from_config(config)
    }
}

impl<'a> vstd::std_specs::convert::FromSpecImpl<&'a PlantConfig> for Plant {
    open spec fn obeys_from_spec() -> bool {
        true
    }

    open spec fn from_spec(config: &'a PlantConfig) -> Plant {
        Plant { id: config.id, name: config.name }
    }
}

impl Clone for Plant {
    fn clone(&self) -> (p: Plant)
        ensures
            p == *self,
    {
        Plant { id: self.id, name: self.name.clone() }
    }
}

/// Copies a list of plants.
pub fn clone_plants(plants: &Vec<Plant>) -> (out: Vec<Plant>)
    ensures
        out@ == plants@,
{
    let mut out: Vec<Plant> = Vec::new();
    let mut i: usize = 0;
    while i < plants.len()
        invariant
            i <= plants.len(),
            out@ == plants@.take(i as int),
        decreases plants.len() - i,
    {
        out.push(plants[i].clone());
        assert(plants@.take(i + 1) == plants@.take(i as int).push(plants@[i as int]));
        i = i + 1;
    }
    assert(plants@.take(plants.len() as int) == plants@);
    out
}

} // verus!
