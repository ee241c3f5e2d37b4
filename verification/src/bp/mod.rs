pub mod rewards;
