//! The rules by which the skills manager places, moves and repairs its library.
//!
//! Everything here decides; nothing here touches the disk. A caller observes the file
//! system, hands over what it saw as plain values, and carries out what it is told. What
//! holds of several functions together stands in the modules whose names end in `laws`.

pub mod central_repo;
pub mod environment;
pub mod external;
pub mod external_laws;
pub mod file_manager;
pub mod file_manager_laws;
pub mod link_laws;
pub mod location_laws;
pub mod migration;
pub mod migration_laws;
pub mod move_laws;
pub mod os_text;
pub mod path_laws;
pub mod paths;
pub mod place_laws;
pub mod places;
pub mod reading_laws;
pub mod relocation_repair;
pub mod repair_laws;
pub mod request_laws;
pub mod startup;
pub mod startup_laws;
pub mod state;
pub mod target;
pub mod target_laws;
pub mod text;
pub mod text_laws;
