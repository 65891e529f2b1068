pub mod init_system;
pub mod configmanager;
pub mod prepare_ini;
