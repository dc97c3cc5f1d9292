//! Správa a premietanie liturgických piesní.
pub mod text;
pub mod typ;
pub mod zoradenie;
pub mod library_jks;
pub mod model;
pub mod db;
pub mod import;
pub mod file_opener;
pub mod seial_comunikator;
pub mod song_lister;
pub mod app;
pub mod nahravanie;
pub mod ui;
pub mod popups;
pub mod platno;
