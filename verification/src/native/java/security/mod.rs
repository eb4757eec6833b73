pub mod access_controller;
