pub mod messaging;
