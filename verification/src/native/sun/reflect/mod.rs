pub mod reflection;
