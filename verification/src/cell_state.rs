pub use crate::env_state::{clear, get_server, set_server};
