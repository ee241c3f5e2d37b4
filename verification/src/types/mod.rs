pub mod hero_group_snapshot_type;
