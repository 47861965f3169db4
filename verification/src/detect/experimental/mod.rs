pub mod closest_ancestor;
