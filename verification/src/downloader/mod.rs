pub mod browserdrag;
pub mod icons;
pub mod util;
pub mod messages;
pub mod db_clean;
