pub mod zoom;
