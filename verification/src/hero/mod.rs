pub mod destiny;
pub mod progression;
