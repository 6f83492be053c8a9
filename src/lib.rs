//! A coin-pusher playfield modelled in fixed-point integers: an entity world
//! whose shape and body kind are always attached together, a ping-pong tween
//! that drives the pusher, the input pipeline that drops coins, and the
//! bootstrap scene.
pub mod geometry;
pub mod tween;
pub mod world;
pub mod physics;
pub mod scene;
pub mod input;
