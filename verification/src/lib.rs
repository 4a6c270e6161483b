//! Simulation core of a turn-based dungeon crawler: the tile map and its
//! generator, visibility, monster behaviour, melee combat and the turn
//! state machine, all working on one explicit world value.

pub mod codepage;
pub mod components;
pub mod connectivity;
pub mod console;
pub mod console_util;
pub mod damage_system;
pub mod game_resources;
pub mod gamelog;
pub mod geometry;
pub mod keyboard_test_system;
pub mod main_menu_state;
pub mod map;
pub mod map_builders;
pub mod map_indexing_system;
pub mod melee_combat_system;
pub mod monster_ai_system;
pub mod player;
mod random;
pub mod rendering;
pub mod spawner;
pub mod state;
pub mod text;
pub mod visibility_system;
pub mod world;

pub use components::{
    BlocksTile, Color, CombatStats, Components, Entity, Item, Monster, Name, Player, Position,
    Renderable, SufferDamage, Viewshed, WantsToMelee, WantsToPickupItem,
};
pub use console::{Console, ConsoleTile};
pub use console_util::selection_box;
pub use damage_system::{delete_the_dead, DamageSystem};
pub use game_resources::GameInfo;
pub use gamelog::GameLog;
pub use geometry::{Point, Rect};
pub use keyboard_test_system::{KeyboardTestSystem, TestColors, TestKey};
pub use main_menu_state::{MainMenuState, MenuColors, MenuEvent, MenuTrans};
pub use map::{GameMap, TileType};
pub use map_builders::{
    random_builder, BuilderKind, BuilderPlan, MapBuilder, SimpleMapBuilder,
};
pub use map_indexing_system::MapIndexingSystem;
pub use melee_combat_system::MeleeCombatSystem;
pub use monster_ai_system::{MonsterAI, MonsterPlan};
pub use player::{
    command_for, get_item, perform, player_input, skip_turn, try_move_player, try_next_level,
    Command, Key,
};
pub use rendering::{draw_entities, draw_map, draw_tile, log_lines};
pub use state::{RunState, State};
pub use visibility_system::VisibilitySystem;
pub use world::World;
