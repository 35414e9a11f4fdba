pub mod block;
pub mod d_vector;
