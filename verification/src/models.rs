//! Plain data types of the core: credential, identifiers, wire records and
//! the gateway frame shapes.

pub mod common;
pub mod error;
pub mod gateway;
pub mod token;
pub mod user;

pub use common::Snowflake;
pub use error::DiscordError;
pub use gateway::BotGateway;
pub use gateway::Gateway;
pub use gateway::GatewayEvent;
pub use gateway::GatewayMessage;
pub use gateway::GatewayOpcode;
pub use gateway::HelloPayload;
pub use gateway::Payload;
pub use gateway::SessionStartLimit;
pub use token::Token;
pub use user::User;
