pub mod contentlist;
pub mod subscriptionmove;
pub mod guiprocessor;
pub mod statusbar;
pub mod contentdownloader;
pub mod sourcetree;
pub mod browserpane;
pub mod jobs;
