//! User-settings domain data. Settings storage lives outside the verified
//! engine; these types are its vocabulary.

use vstd::prelude::*;

verus! {

/// A user's preferences as stored.
#[derive(Debug, Clone)]
pub struct UserSettingsDto {
    pub id: String,
    pub email: Option<String>,
    pub display_name: Option<String>,
    pub default_currency: String,
    pub locale: String,
    pub week_starts_on: i32,
    pub telemetry_opt_in: bool,
    pub theme_preference: Option<String>,
}

/// Input for updating user settings; absent fields keep their stored
/// value.
#[derive(Debug, Clone)]
pub struct UpdateUserSettingsInput {
    pub default_currency: Option<String>,
    pub locale: Option<String>,
    pub week_starts_on: Option<i32>,
    pub telemetry_opt_in: Option<bool>,
    pub theme_preference: Option<String>,
    pub display_name: Option<String>,
}

/// Input for reordering categories.
#[derive(Debug, Clone)]
pub struct UpdateCategoryOrderInput {
    pub category_ids: Vec<String>,
}

/// Errors of the settings service.
#[derive(Debug)]
pub enum SettingsServiceError {
    Database(String),
    NotFound(String),
    Validation(String),
    Internal(String),
}

} // verus!
