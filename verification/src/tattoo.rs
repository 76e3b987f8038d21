use vstd::prelude::*;

verus! {

/// The kind of node a tattoo replaces.
#[derive(Debug, Clone, Copy, PartialEq, Eq, Structural)]
pub enum TattooType {
    Node,
    Mastery,
    Keystone,
}

/// What a tattoo puts on a node.
#[derive(Debug)]
pub struct TattooData {
    pub stats: Vec<String>,
    pub tattoo_type: TattooType,
    pub icon: String,
    pub active_effect_image: String,
}

} // verus!
