//! Responses of the watchlist search.
use vstd::prelude::*;

verus! {

#[derive(Debug, Clone)]
pub struct FlagSearchResponse {
    pub limit: u32,
    pub offset: u32,
    pub total: Total,
    pub results: Vec<Entity>,
    pub facets: Facets,
}

#[derive(Debug, Clone)]
pub struct Total {
    pub value: u32,
    pub relation: String,
}

/// One ranked match. `properties` holds each property name with its values, in the order
/// the service sent them.
#[derive(Debug, Clone)]
pub struct Entity {
    pub id: String,
    pub caption: String,
    pub schema: String,
    pub properties: Vec<(String, Vec<String>)>,
    pub datasets: Vec<String>,
    pub referents: Vec<String>,
    pub target: bool,
    pub first_seen: String,
    pub last_seen: String,
    pub last_change: String,
}

#[derive(Debug, Clone)]
pub struct Facets {
    pub topics: FacetCategory,
    pub datasets: FacetCategory,
    pub countries: FacetCategory,
}

#[derive(Debug, Clone)]
pub struct FacetCategory {
    pub label: String,
    pub values: Vec<FacetValue>,
}

#[derive(Debug, Clone)]
pub struct FacetValue {
    pub name: String,
    pub label: String,
    pub count: u32,
}

} // verus!
