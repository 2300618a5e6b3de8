//! State of the screens that the presentation layer draws.
use vstd::prelude::*;

verus! {

/// Which stored records the database screen lists.
#[derive(PartialEq, Eq, Structural, Debug, Clone, Copy)]
pub enum DatabaseDataType {
    PhotodiodeData,
    NewtonRaphsonResults,
}

impl DatabaseDataType {
    /// The store's collection that holds records of this kind.
    pub fn collection_name(&self) -> (r: &'static str)
        ensures
            r@ == match self {
                DatabaseDataType::PhotodiodeData => "photodiode_data"@,
                DatabaseDataType::NewtonRaphsonResults => "newton_raphson_results"@,
            },
    {
        match self {
            DatabaseDataType::PhotodiodeData => "photodiode_data",
            DatabaseDataType::NewtonRaphsonResults => "newton_raphson_results",
        }
    }

    /// The record field that holds the value of this kind.
    pub fn value_field(&self) -> (r: &'static str)
        ensures
            r@ == match self {
                DatabaseDataType::PhotodiodeData => "photodiode_value"@,
                DatabaseDataType::NewtonRaphsonResults => "akar_terakhir"@,
            },
    {
        match self {
            DatabaseDataType::PhotodiodeData => "photodiode_value",
            DatabaseDataType::NewtonRaphsonResults => "akar_terakhir",
        }
    }
}

pub struct DatabaseScreen {
    pub current_display_type: DatabaseDataType,
}

impl DatabaseScreen {
    /// Starts on the raw readings.
    pub fn new() -> (r: Self)
        ensures
            r.current_display_type == DatabaseDataType::PhotodiodeData,
    {
        DatabaseScreen { current_display_type: DatabaseDataType::PhotodiodeData }
    }
}

pub struct HomeScreen {}

impl HomeScreen {
    pub fn new() -> (r: Self)
        ensures
            r == (HomeScreen {}),
    {
        HomeScreen {}
    }
}

} // verus!
