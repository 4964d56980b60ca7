pub mod plot;
