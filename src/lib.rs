//! A "dodge the falling objects" arcade game, as a verified simulation core.
//!
//! All lengths are integers in tenths of a pixel and all durations are integers
//! in milliseconds, so that movement, collision and spawning are exact.
pub mod assets;
pub mod attack;
pub mod collision;
pub mod entity;
pub mod geometry;
pub mod item;
pub mod player;
pub mod session;
mod random;
pub mod spawn;

pub use assets::AssetRegistry;
pub use attack::{Attack, AttackType};
pub use collision::{resolve_collisions, Effect, Hit};
pub use entity::{advance, EntityBundle, EntityKind, EntityType, FallingEntity};
pub use geometry::{Point, Size};
pub use item::{Item, ItemType};
pub use player::{Condition, MoveInput, Player, PlayerDate};
pub use spawn::SpawnTimer;
pub use session::{random_translation, AttackRoll, ItemRoll, Session, TickReport};
