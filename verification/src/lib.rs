//! The decision core of a key-rotating gateway for chat models.

pub mod admission;
pub mod answer_laws;
pub mod candidates;
pub mod chat;
pub mod chat_laws;
pub mod cli;
pub mod conversation_laws;
pub mod deadline;
pub mod effect;
pub mod endpoint_laws;
pub mod endpoints;
pub mod json;
pub mod key_laws;
pub mod message_laws;
pub mod messages;
pub mod metrics;
pub mod mistral;
pub mod model_id;
pub mod model_laws;
pub mod number;
pub mod params;
pub mod passthrough;
pub mod pool;
pub mod prepare;
pub mod race;
pub mod race_flow;
pub mod race_laws;
pub mod racer;
pub mod remark_laws;
pub mod repetition;
pub mod request_laws;
pub mod router;
pub mod samples;
pub mod solo;
pub mod solo_laws;
pub mod state;
pub mod stats;
pub mod table;
pub mod tally;
pub mod text;
pub mod turn;
pub mod upstream;
pub mod wire;
