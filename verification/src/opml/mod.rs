pub mod opmlreader;
