pub mod password;
pub mod name;
pub mod freaky;
pub mod ai;
pub mod gif;
pub mod search;
pub mod vid;
pub mod gpt;
pub mod ping_voice;
pub mod roll;
pub mod song;
