pub mod deck;
pub mod engine;
pub mod shuffle;

pub use engine::Coordinator;
pub use engine::Phase;
pub use shuffle::Shuffler;
pub use deck::Card;
pub use deck::Deck;
pub use deck::Face;
pub use deck::Suit;
