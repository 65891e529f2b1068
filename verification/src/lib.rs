pub mod args_lang;
pub mod config;
pub mod context;
pub mod controller;
pub mod db;
pub mod downloader;
pub mod keys;
pub mod opml;
pub mod text;
pub mod util;
pub mod web;
